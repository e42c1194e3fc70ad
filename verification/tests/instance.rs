use supervisor::instance::{
    already_held, claim_dir, claim_refusal, format_uptime, instance_of, list, select_command, select_log, Found, Instance,
};
use supervisor::time::Elapsed;

fn at(pid: u32, config: &str, age: i128, live: bool, has_log: bool) -> Instance {
    Instance { pid, config: config.into(), started: (1000 - age) * 1_000_000_000, live, has_log }
}

#[test]
fn commands_reach_the_newest_live_on_this_config_and_fall_back_only_without_dash_c() {
    let a = "/a";
    let running = vec![at(900, "/a", 50, true, true), at(100, "/a", 5, true, true), at(7, "/b", 1, true, true)];
    assert_eq!(select_command(&running, None, a, false), Ok(100), "newest, not highest pid");
    assert_eq!(select_command(&running, Some(900), a, true), Ok(900));
    assert_eq!(select_command(&running, None, "/c", false), Ok(7), "any live without -c");
    assert!(select_command(&running, None, "/c", true).is_err(), "-c names the one it wants");

    let dead = vec![at(5, "/a", 5, false, true)];
    assert!(select_command(&dead, Some(5), a, false).is_err(), "a dead pid takes no command");
    assert!(select_command(&dead, None, a, false).is_err());
}

/// `-c` keeps a trailing slash, and the shell it names was started without one.
#[test]
fn a_config_is_compared_as_a_path_and_not_as_text() {
    let running = vec![at(5, "/a/b", 5, true, true), at(6, "/a", 1, true, true)];
    for written in ["/a/b/", "/a//b", "/a/./b", "//a/b/."] {
        assert_eq!(select_command(&running, None, written, true), Ok(5), "{written}");
        assert_eq!(select_log(&running, None, Some(written)), Ok((5, None)), "{written}");
    }
    assert_eq!(select_command(&running, None, "/a/", true), Ok(6));
    assert_eq!(
        select_command(&running, None, "/a/bc", true),
        Err("no shell is running on /a/bc".to_string()),
        "whole components"
    );
    assert!(select_command(&running, None, "a/b", true).is_err(), "no root");
    assert!(select_command(&running, None, "/a/c/../b", true).is_err(), "`..` is not resolved");
}

#[test]
fn log_reads_the_newest_live_with_a_log_then_the_newest_dead_run() {
    let a = "/a";
    let instances = vec![
        at(1, "/a", 50, false, true),
        at(2, "/a", 40, true, true),
        at(3, "/b", 30, true, true),
        at(4, "/b", 1, true, false),
    ];
    assert_eq!(select_log(&instances, None, Some(a)), Ok((2, None)), "-c narrows; a dead run is not counted");
    assert_eq!(
        select_log(&vec![at(1, "/a", 50, false, true)], None, None),
        Ok((1, None)),
        "nothing live: the last run"
    );
    assert_eq!(select_log(&instances, Some(1), None), Ok((1, None)), "a kept dead run is readable by pid");
    assert_eq!(
        select_log(&instances, None, None),
        Ok((3, Some("2 shells running; showing pid 3 (newest). --pid picks one; obelisk list shows them".into()))),
        "a terminal-started shell has nothing to read, and is not counted"
    );
    assert!(select_log(&instances, Some(9), None).is_err());
    assert!(select_log(&instances, None, Some("/c")).is_err());
}

#[test]
fn format_uptime_rolls_units() {
    for (secs, shown) in [(0, "0s"), (59, "59s"), (60, "1m00s"), (3600, "1h00m"), (86_400, "1d00h")] {
        assert_eq!(format_uptime(Elapsed { secs, nanos: 0 }), shown);
    }
}

fn found(name: &str, config: Option<&str>) -> Found {
    Found { name: name.into(), started: Some(5), config: config.map(str::to_string), live: true, has_log: false }
}

#[test]
fn only_a_directory_named_by_a_pid_with_a_config_is_an_instance() {
    assert_eq!(
        instance_of(found("42", Some("/cfg"))),
        Some(Instance { pid: 42, config: "/cfg".into(), started: 5, live: true, has_log: false })
    );
    assert_eq!(instance_of(found("notes", Some("/cfg"))), None);
    assert_eq!(instance_of(found("42", None)), None);
    let listed = list(vec![found("42", Some("/cfg")), found("notes", Some("/cfg")), found("7", Some("/b"))]);
    assert_eq!(listed.iter().map(|instance| instance.pid).collect::<Vec<_>>(), [42, 7]);
}

#[test]
fn claim_clears_a_dead_leftover_under_its_own_pid_and_refuses_a_live_one() {
    let dir = claim_dir("/run/mantle", 42);
    assert_eq!(dir, "/run/mantle/42");
    assert_eq!(claim_refusal(&dir, false), None, "a reused pid starts from an empty directory");
    assert_eq!(claim_refusal(&dir, true), Some("/run/mantle/42 is held by a running shell".to_string()));
    assert_eq!(already_held(&dir), "/run/mantle/42 is already held");
}
