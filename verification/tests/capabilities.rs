use supervisor::capabilities::applications::{launch_failure, open_url_failure, LaunchError, OpenUrlError};
use supervisor::capabilities::applications::watch::{
    ancestors, scanned, wait_ended, watches, Next, WaitEnd, Waiting, Watch,
};
use supervisor::capabilities::bluetooth::BluetoothSignal;
use supervisor::capabilities::keyboard::KeyboardState;
use supervisor::capabilities::lifecycle::{Capabilities, CompositorKind, Forgotten, Route, StartPlan};
use supervisor::capabilities::network::{
    dispatch, NetworkAction, NetworkNow, NetworkSignal, NetworkTask, PendingNetworkConnect,
};
use supervisor::capabilities::shm_icons::{icon_dir, is_within, remove_png, write_png};
use supervisor::capabilities::signals::{recv_latest, Signal};
use supervisor::capabilities::worker::{bluetooth_burst, network_burst};
use supervisor::capabilities::{lua_list, lua_list_in, non_empty, read_attr, truncate_utf8_bytes, Capability};
use supervisor::json::Json;

#[test]
fn from_name_resolves_every_roster_entry_and_nothing_else() {
    assert_eq!(Capability::from_name("audio"), Some(Capability::Audio));
    assert_eq!(Capability::from_name("polkit"), Some(Capability::Polkit));
    assert_eq!(Capability::from_name("idle"), Some(Capability::Idle));
}

#[test]
fn startable_rejects_a_name_this_supervisor_builds_nothing_for() {
    // `process` is command-addressable but never started; it must not resolve to a silent
    // start.
    assert_eq!(Capability::from_name("process"), None);
    assert_eq!(Capability::from_name("screens"), None);
    assert_eq!(Capability::from_name(""), None);
}

#[test]
fn truncate_utf8_bytes_is_a_no_op_under_the_cap() {
    assert_eq!(truncate_utf8_bytes("hello", 64), "hello");
}

#[test]
fn truncate_utf8_bytes_truncates_ascii_at_the_exact_cap() {
    assert_eq!(truncate_utf8_bytes("hello world", 5), "hello");
}

#[test]
fn truncate_utf8_bytes_never_splits_a_multibyte_char() {
    // "héllo" -- 'é' is 2 bytes (0xc3 0xa9); a byte cap landing mid-character must back off.
    let input = "héllo";
    assert_eq!(input.len(), 6);
    // Cap of 2 bytes lands right in the middle of 'é' (byte 1 is not a char boundary).
    let truncated = truncate_utf8_bytes(input, 2);
    assert_eq!(truncated, "h");
    assert!(truncated.len() <= 2);
}

#[test]
fn truncate_utf8_bytes_handles_a_cap_of_zero() {
    assert_eq!(truncate_utf8_bytes("hello", 0), "");
}

#[test]
fn every_name_reads_back() {
    for capability in [Capability::Network, Capability::Windows, Capability::Processes, Capability::Lock] {
        assert_eq!(Capability::from_name(capability.name()), Some(capability));
    }
}

#[test]
fn an_attribute_is_trimmed_and_an_empty_one_is_absent() {
    assert_eq!(read_attr(Some(" 80\n".to_string())), Some("80".to_string()));
    assert_eq!(read_attr(None), None);
}

/// An empty Lua table arrives as `{}`.
#[test]
fn a_lua_list_may_be_omitted_nil_or_an_empty_table() {
    for nothing in [None, Some("null"), Some("{}"), Some("[]")] {
        assert_eq!(lua_list(nothing), Some(vec![]), "{nothing:?}");
    }
    assert_eq!(lua_list(Some("[\"jpg\", 1]")), Some(vec!["\"jpg\"".to_string(), "1".to_string()]));
    for refused in ["{\"jpg\":true}", "\"jpg\"", "1", "not json"] {
        assert_eq!(lua_list(Some(refused)), None, "{refused}");
    }
    assert_eq!(lua_list_in(Some(Json::Bool(true))), None);
    assert_eq!(lua_list_in(Some(Json::Table(vec![]))), Some(vec![]));
}

#[test]
fn a_key_names_something() {
    assert_eq!(non_empty("rec".to_string()), Ok("rec".to_string()));
    assert_eq!(non_empty(String::new()), Err("expected a non-empty string".to_string()));
}

// ---- the spool ----

#[test]
fn a_real_file_under_the_spool_is_within_it() {
    assert!(is_within(Some("/run/spool/notif-1.png"), Some("/run/spool")));
}

#[test]
fn a_nonexistent_or_dot_dot_path_is_not_within_the_spool() {
    // A file that does not exist resolves to nothing; one with `..` resolves to where it leads.
    assert!(!is_within(None, Some("/run/spool")));
    assert!(!is_within(Some("/run/elsewhere/theme-icon.png"), Some("/run/spool")));
    assert!(!is_within(Some("/run/spool-too/x.png"), Some("/run/spool")), "a name is compared whole");
}

#[test]
fn a_symlink_escaping_the_spool_is_not_within_it() {
    // The link resolves to the file it names.
    assert!(!is_within(Some("/run/elsewhere/real.png"), Some("/run/spool")));
    assert!(!remove_png(&Ok("/run/spool".to_string()), Some("/run/elsewhere/real.png"), Some("/run/spool")));
    assert!(remove_png(&Ok("/run/spool".to_string()), Some("/run/spool/a.png"), Some("/run/spool")));
}

#[test]
fn the_spool_is_a_directory_of_the_instance() {
    assert_eq!(icon_dir(Some("/run/mantle/7"), "tray-icons"), Ok("/run/mantle/7/tray-icons".to_string()));
    assert_eq!(icon_dir(None, "tray-icons"), Err("no instance directory".to_string()));
    assert_eq!(
        write_png(Some("/run/mantle/7"), "tray-icons", "a.png"),
        Ok(("/run/mantle/7/tray-icons".to_string(), "/run/mantle/7/tray-icons/a.png".to_string()))
    );
    assert_eq!(write_png(None, "tray-icons", "a.png"), Err("no instance directory".to_string()));
}

// ---- signals ----

#[test]
fn a_burst_on_one_channel_is_one_signal_carrying_the_newest_state() {
    let state = |backlight_pct| KeyboardState { backlight_pct, ..KeyboardState::default() };
    let latest = recv_latest(state(1), vec![state(2), state(3)]);
    let signal = Signal::Keyboard(latest);
    assert!(matches!(&signal, Signal::Keyboard(state) if state.backlight_pct == 3));
    assert_eq!(recv_latest(7, vec![]), 7);
    assert!(signal.carries_state());
    assert!(!Signal::Updates.carries_state());
    assert_eq!(signal.capability(), Capability::Keyboard);
    assert_eq!(Signal::Updates.capability(), Capability::Updates);
}

/// A queued run of one signal is one rebuild; distinct signals keep their order.
#[test]
fn a_worker_handles_a_run_of_equal_queued_signals_once() {
    let one = NetworkSignal::Changed;
    let two = NetworkSignal::ScanStarted;
    assert_eq!(network_burst(&vec![one, one, one, two, two, one]), vec![one, two, one]);
    let added = BluetoothSignal::DeviceRegistryChanged;
    assert_eq!(bluetooth_burst(&vec![added, added]), vec![added]);
}

// ---- actions ----

#[test]
fn a_join_is_stashed_before_its_task_runs() {
    assert_eq!(
        dispatch(NetworkAction::Connect { ssid: "home".into(), hidden: true }),
        (
            NetworkNow::Stash(PendingNetworkConnect { ssid: "home".into(), hidden: true }),
            NetworkTask::ResolveIntent
        )
    );
    assert_eq!(dispatch(NetworkAction::Scan), (NetworkNow::MarkScanning, NetworkTask::Scan));
    assert_eq!(dispatch(NetworkAction::AbortConnect), (NetworkNow::AbortConnect, NetworkTask::Nothing));
}

#[test]
fn a_refused_launch_quotes_what_was_asked_for() {
    assert_eq!(
        launch_failure("a\"b", &LaunchError::Unknown),
        "no application entry with id \"a\\\"b\"".to_string()
    );
    assert_eq!(
        launch_failure("htop", &LaunchError::Spawn("No such file".into())),
        "spawning \"htop\" failed: No such file"
    );
    assert_eq!(
        launch_failure("htop", &LaunchError::NoTerminal),
        "\"htop\" declares Terminal=true and $TERMINAL is unset, so there is no emulator to run it in"
    );
    assert_eq!(
        open_url_failure("file:///x", &OpenUrlError::Refused("scheme".into())),
        "refused \"file:///x\": scheme"
    );
    assert_eq!(
        open_url_failure("https://x", &OpenUrlError::Spawn("No such file".into())),
        "spawning xdg-open for \"https://x\" failed: No such file"
    );
}

// ---- lifecycle ----

#[test]
fn a_backend_is_built_once_and_a_closed_worker_is_built_again() {
    let mut capabilities = Capabilities::new();
    assert_eq!(capabilities.dispatch(Capability::Network), Route::Unstarted);
    let plan = capabilities.start(Capability::Network, false);
    assert!(plan.build && plan.in_worker);
    assert!(capabilities.holds(Capability::Network));
    assert!(!capabilities.start(Capability::Network, false).build);
    assert!(capabilities.start(Capability::Network, true).build);
    assert_eq!(capabilities.dispatch(Capability::Network), Route::Worker);
}

#[test]
fn the_compositor_is_looked_for_once() {
    let mut capabilities = Capabilities::new();
    assert!(capabilities.start(Capability::Windows, false).detect_compositor);
    assert!(capabilities.compositor_detected(Some(CompositorKind::Hyprland)));
    assert!(!capabilities.start(Capability::Workspaces, false).detect_compositor);
    assert_eq!(capabilities.compositor(), Some(CompositorKind::Hyprland));
}

#[test]
fn privacy_starts_the_mixer_it_reads() {
    let mut capabilities = Capabilities::new();
    let plan = capabilities.start(Capability::Privacy, false);
    assert!(plan.start_mixer && plan.build);
    assert!(capabilities.holds(Capability::Audio));
    assert!(!capabilities.start(Capability::Audio, false).start_mixer);
    assert_eq!(
        capabilities.start(Capability::Privacy, false),
        StartPlan {
            start_mixer: false,
            detect_compositor: false,
            session_bus: false,
            build: false,
            in_worker: false,
            announce: false
        }
    );
}

#[test]
fn an_action_goes_where_its_controller_is() {
    let mut capabilities = Capabilities::new();
    assert_eq!(capabilities.dispatch(Capability::Lock), Route::Lock);
    assert_eq!(capabilities.dispatch(Capability::Polkit), Route::Elsewhere);
    assert_eq!(capabilities.dispatch(Capability::Battery), Route::ReadOnly);
    capabilities.start(Capability::Updates, false);
    assert_eq!(capabilities.dispatch(Capability::Updates), Route::Controller);
}

#[test]
fn a_departed_config_leaves_nothing_running_for_it() {
    let mut capabilities = Capabilities::new();
    assert_eq!(
        capabilities.forget_departed_requests(),
        Forgotten { stop_discovery: false, cancel_connect: false, forget_watches: false }
    );
    capabilities.start(Capability::Bluetooth, false);
    capabilities.start(Capability::Files, false);
    assert_eq!(
        capabilities.forget_departed_requests(),
        Forgotten { stop_discovery: true, cancel_connect: false, forget_watches: true }
    );
    assert!(!capabilities.connect_prompted(false));
    assert_eq!(capabilities.push(&Signal::Updates), None, "no controller, no state to push");
}

// ---- the applications watch ----

#[test]
fn a_missing_directory_is_watched_through_its_nearest_existing_ancestor() {
    let above = ancestors("/home/me/.local/share/applications");
    assert_eq!(above, ["/home/me/.local/share", "/home/me/.local", "/home/me", "/home", "/"]);
    assert_eq!(
        watches(vec![], above, &vec![false, false, true, true, true]),
        vec![Watch { path: "/home/me".to_string(), only_new: true }]
    );
    assert_eq!(
        watches(vec!["/a".to_string(), "/a/b".to_string()], ancestors("/a"), &vec![true]),
        vec![
            Watch { path: "/a".to_string(), only_new: false },
            Watch { path: "/a/b".to_string(), only_new: false }
        ]
    );
    assert_eq!(watches(vec![], ancestors("x"), &vec![false]), vec![]);
}

#[test]
fn a_burst_of_changes_is_one_scan() {
    assert_eq!(scanned(true), Next::Wait(Waiting::Change));
    assert_eq!(scanned(false), Next::Stop);
    assert_eq!(wait_ended(Waiting::Change, WaitEnd::Changed), Next::Wait(Waiting::Quiet));
    assert_eq!(wait_ended(Waiting::Quiet, WaitEnd::Changed), Next::Wait(Waiting::Quiet));
    assert_eq!(wait_ended(Waiting::Quiet, WaitEnd::Settled), Next::Scan);
    assert_eq!(wait_ended(Waiting::Change, WaitEnd::Closed), Next::Stop);
}

#[test]
fn sessions_are_reaped_once_processes_were_started() {
    let mut capabilities = Capabilities::new();
    assert!(!capabilities.reap_sessions());
    capabilities.start(Capability::Processes, false);
    assert!(capabilities.reap_sessions());
}
