use supervisor::cli::{
    config_dir_from, is_option, parse, pid_from, verbose_count, Args, Command, Parsed, SetState, StateWrite, HELP,
};

/// Resolves a `-c` as from the directory `/home/me`, where nothing but `shell.lua` is a file.
fn resolve(raw: &str) -> Result<String, String> {
    let dir = config_dir_from(raw, raw.ends_with("shell.lua"))?;
    Ok(if dir.starts_with('/') { dir } else { format!("/home/me/{dir}") })
}

fn parse_args(args: &[&str]) -> Result<Args, String> {
    let argv: Vec<String> = std::iter::once("mantle").chain(args.iter().copied()).map(str::to_string).collect();
    let mut dirs = Vec::new();
    loop {
        match parse(&argv, &dirs) {
            Parsed::Done(result) => return result,
            Parsed::Resolve(raw) => dirs.push(resolve(&raw)),
        }
    }
}

fn write(name: &str, write: StateWrite) -> Command {
    Command::SetState(SetState { name: name.to_string(), write })
}

/// The state name and value are taken before flags so a value like `-5` is not read as one,
/// but an option the parser knows is still an option in that slot.
#[test]
fn an_option_after_a_state_name_is_still_an_option() {
    let path = "/tmp";
    let joined = format!("--config={path}");
    for args in [
        vec!["toggle", "launcher_open", "-c", path],
        vec!["toggle", "launcher_open", "--config", path],
        // The joined form is one argument, so it is the one a bare "starts with a dash" test
        // would wave through as the toggle's value.
        vec!["toggle", "launcher_open", joined.as_str()],
    ] {
        let parsed = parse_args(&args).unwrap();
        assert_eq!(parsed.command, write("launcher_open", StateWrite::Toggle), "{args:?}");
        assert_eq!(parsed.config_dir.as_deref(), Some(path), "{args:?}");
    }
    // A value that merely begins with a dash is still a value.
    let parsed = parse_args(&["set", "volume_step", "-5"]).unwrap();
    assert_eq!(parsed.command, write("volume_step", StateWrite::SetTo("-5".to_string())));
}

#[test]
fn no_arguments_runs_the_shell_against_the_default_config() {
    assert_eq!(
        parse_args(&[]).unwrap(),
        Args { command: Command::Run, config_dir: None, detach: false, profile: None, pid: None, verbose: 0 }
    );
}

#[test]
fn profile_defaults_its_interval_and_refuses_one_that_would_never_report() {
    assert_eq!(parse_args(&["--profile"]).unwrap().profile, Some(60));
    assert_eq!(parse_args(&["--profile=5"]).unwrap().profile, Some(5));
    assert!(parse_args(&["--profile=0"]).is_err());
    assert!(parse_args(&["--profile=soon"]).is_err());
    assert!(parse_args(&["check", "--profile"]).is_err(), "nothing runs long enough to report");
    assert_eq!(
        parse_args(&["--profile"]).unwrap().verbose,
        1,
        "the reports print at Info, so the flag asks for it"
    );
    assert_eq!(parse_args(&["--profile", "-vvv"]).unwrap().verbose, 3, "an explicit -v still wins");
}

#[test]
fn verbose_counts_repetition_and_grouping_the_same_way() {
    assert_eq!(parse_args(&[]).unwrap().verbose, 0);
    assert_eq!(parse_args(&["-v"]).unwrap().verbose, 1);
    assert_eq!(parse_args(&["-v", "-v"]).unwrap().verbose, 2, "repeated, like -v twice on the shell");
    assert_eq!(parse_args(&["-vv"]).unwrap().verbose, 2, "grouped, the common shape");
    assert_eq!(parse_args(&["-vvv"]).unwrap().verbose, 3);
    assert_eq!(parse_args(&["--verbose", "-v"]).unwrap().verbose, 2, "long and short form add up");
    assert!(parse_args(&["check", "-v"]).is_err(), "nothing runs long enough to log anything");
}

#[test]
fn a_config_directory_is_made_absolute() {
    let args = parse_args(&["-c", "some/config"]).unwrap();
    let dir = args.config_dir.expect("-c sets a directory");
    assert!(dir.starts_with('/'), "a relative -c must be resolved before any Renderer inherits it");
    assert!(dir.ends_with("some/config"));
}

#[test]
fn the_long_form_and_the_equals_form_agree() {
    let a = parse_args(&["--config", "some/config"]).unwrap();
    let b = parse_args(&["--config=some/config"]).unwrap();
    assert_eq!(a, b);
}

#[test]
fn a_path_to_shell_lua_resolves_to_its_directory() {
    // Accommodate the common `-c ~/.config/mantle/shell.lua` after editing that file.
    let args = parse_args(&["-c", "/home/me/.config/mantle/shell.lua"]).unwrap();
    assert_eq!(args.config_dir.as_deref(), Some("/home/me/.config/mantle"));
    assert_eq!(
        parse_args(&["-c", "shell.lua"]),
        Err("--config shell.lua is a file with no parent directory".to_string())
    );
}

#[test]
fn subcommands_parse_with_their_own_options() {
    assert_eq!(parse_args(&["init"]).unwrap().command, Command::Init { force: false });
    assert_eq!(parse_args(&["init", "--force"]).unwrap().command, Command::Init { force: true });
    assert_eq!(parse_args(&["check"]).unwrap().command, Command::Check);
    assert_eq!(
        parse_args(&["call", "rec.toggle"]).unwrap().command,
        Command::Call { name: "rec.toggle".into(), arguments: Vec::new() }
    );
    // The dot is not split: one opaque name, so no delimiter rule can surprise a config.
    assert_eq!(
        parse_args(&["call", "a.b.c", "7", "hello"]).unwrap().command,
        Command::Call {
            name: "a.b.c".into(),
            // JSON where it parses, a string otherwise, as `set` reads its value.
            arguments: vec!["7".to_string(), "\"hello\"".to_string()]
        }
    );
    assert!(parse_args(&["call"]).is_err(), "call without a name has nothing to ask for");
    assert_eq!(parse_args(&["log"]).unwrap().command, Command::Log { follow: false });
    assert_eq!(parse_args(&["log", "-f"]).unwrap().command, Command::Log { follow: true });
}

/// Values parse as JSON when possible; bare words need no quotes.
#[test]
fn set_and_toggle_name_a_state_and_read_the_value_as_json_or_a_bare_string() {
    assert_eq!(
        parse_args(&["set", "launcher_open", "true"]).unwrap().command,
        write("launcher_open", StateWrite::SetTo("true".to_string()))
    );
    assert_eq!(
        parse_args(&["set", "panel_kind", "notifications"]).unwrap().command,
        write("panel_kind", StateWrite::SetTo("\"notifications\"".to_string()))
    );
    assert_eq!(
        parse_args(&["set", "volume_step", "-5"]).unwrap().command,
        write("volume_step", StateWrite::SetTo("-5".to_string())),
        "a negative number is a value, not a flag"
    );
    assert_eq!(
        parse_args(&["toggle", "launcher_open"]).unwrap().command,
        write("launcher_open", StateWrite::Toggle)
    );
    assert_eq!(
        parse_args(&["toggle", "modal", "launcher"]).unwrap().command,
        write("modal", StateWrite::ToggleTo("\"launcher\"".to_string())),
        "a toggle with a value is a toggle to it"
    );
    assert!(parse_args(&["set", "launcher_open"]).is_err(), "set without a value");
    assert!(parse_args(&["toggle"]).is_err(), "toggle without a name");
}

#[test]
fn force_without_init_is_refused_rather_than_ignored() {
    assert!(parse_args(&["--force"]).is_err(), "a flag that does nothing is worse than an error");
    assert!(parse_args(&["-f"]).is_err(), "--follow has nothing to follow without `log`");
    assert!(parse_args(&["log", "-d"]).is_err(), "--detach has nothing to detach without a run");
    assert!(parse_args(&["-d"]).unwrap().detach, "a bare run takes it");
    assert!(!parse_args(&["--detached"]).unwrap().detach, "the re-exec'd child must not detach again");
}

#[test]
fn pid_parses_for_client_commands_and_is_refused_elsewhere() {
    let parsed = parse_args(&["toggle", "open", "--pid", "5"]).unwrap();
    assert_eq!(parsed.pid, Some(5));
    assert!(matches!(parsed.command, Command::SetState(SetState { write: StateWrite::Toggle, .. })));
    assert_eq!(parse_args(&["log", "--pid=7"]).unwrap().pid, Some(7));
    assert_eq!(parse_args(&["list"]).unwrap().command, Command::List);
    for refused in [
        &["-d", "--pid", "5"][..],
        &["list", "--pid", "5"],
        &["init", "--pid", "5"],
        &["list", "-c", "/"],
        &["log", "-c", "/", "--pid", "5"],
        &["call", "rec.toggle", "--pid", "5", "-c", "/"],
        &["log", "--pid", "x"],
    ] {
        assert!(parse_args(refused).is_err(), "{refused:?}");
    }
}

#[test]
fn config_needs_a_value_and_an_unknown_flag_is_an_error() {
    assert!(parse_args(&["-c"]).is_err());
    assert!(parse_args(&["--colour"]).is_err());
}

#[test]
fn version_and_help_win_over_anything_after_them() {
    assert_eq!(parse_args(&["--version", "init"]).unwrap().command, Command::Version);
    assert_eq!(parse_args(&["-h"]).unwrap().command, Command::Help);
}

#[test]
fn json_is_stored_compact() {
    assert_eq!(
        parse_args(&["set", "kind", "{ \"b\" : [1, 2 ] }"]).unwrap().command,
        write("kind", StateWrite::SetTo("{\"b\":[1,2]}".to_string()))
    );
    assert_eq!(
        parse_args(&["set", "kind", "a \"b\""]).unwrap().command,
        write("kind", StateWrite::SetTo("\"a \\\"b\\\"\"".to_string()))
    );
}

#[test]
fn the_parts_of_an_option() {
    assert_eq!(verbose_count("-vvv"), Some(3));
    assert_eq!(verbose_count("-vx"), None);
    assert!(is_option("--config=/x"));
    assert!(!is_option("-5"));
    assert_eq!(pid_from("17"), Ok(17));
    assert!(pid_from("-1").is_err());
    assert!(HELP.contains("--config"));
}

#[test]
fn an_equals_pid_is_an_option_where_a_value_could_stand() {
    assert!(is_option("--pid=5"));
    let args = parse_args(&["toggle", "open", "--pid=5"]).unwrap();
    assert_eq!(args.command, write("open", StateWrite::Toggle));
    assert_eq!(args.pid, Some(5));
    let args = parse_args(&["call", "rec.toggle", "--pid=7"]).unwrap();
    assert_eq!(args.command, Command::Call { name: "rec.toggle".to_string(), arguments: Vec::new() });
    assert_eq!(args.pid, Some(7));
}

#[test]
fn the_verbose_count_holds_at_its_top() {
    let grouped = format!("-{}", "v".repeat(256));
    assert_eq!(verbose_count(&format!("-{}", "v".repeat(255))), Some(255));
    assert_eq!(verbose_count(&grouped), Some(255));
    assert_eq!(parse_args(&[&grouped, "-v"]).unwrap().verbose, 255);
}
