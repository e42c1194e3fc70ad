use supervisor::capabilities::updates::backend::{Backend, CheckReport, InstallStep, Output, UpdateCandidate};
use supervisor::capabilities::updates::pacman::aur::{
    first_helper, newer_only, parse_info as parse_aur_info, request, request_failure, Info, InfoResponse, NO_HELPER,
};
use supervisor::capabilities::updates::pacman::check::{
    db_paths, download_of, failed, fetch_arguments, fetch_db, outdated, pacman, parse_downloads, parse_info,
    parse_upgrades, repo_list, repos_query, run, servers_query, size_parts, with_sizes, Attempt, FetchStep, Outdated, PackageInfo, PrintedSize,
};
use supervisor::capabilities::updates::pacman::install::parse_install_step;
use supervisor::capabilities::updates::pacman::{
    check_env, check_in_a_child, link_local_db, report, ChildEnd, PacmanBackend,
};

fn foreign() -> Vec<(String, String)> {
    [("newer", "1.0-1"), ("same", "2.0-1"), ("epoch", "9.0-1"), ("older", "3.0-1")]
        .map(|(name, version)| (name.to_string(), version.to_string()))
        .to_vec()
}

fn info(name: &str, version: &str) -> Info {
    Info { name: name.to_string(), version: version.to_string() }
}

#[test]
fn only_requested_packages_survive() {
    let answer = InfoResponse {
        results: vec![
            info("newer", "1.1-1"),
            info("same", "2.0-1"),
            info("epoch", "1:1.0-1"),
            info("older", "2.9-1"),
            info("unrequested", "5.0-1"),
        ],
        error: None,
    };

    let found = parse_aur_info(&Ok(answer), &foreign()).unwrap();
    let names: Vec<_> = found.iter().map(|candidate| candidate.name.as_str()).collect();

    assert_eq!(names, ["newer", "same", "epoch", "older"], "nobody asked for `unrequested`");
    assert_eq!(found[0].old_version, "1.0-1");
    assert_eq!(found[0].new_version, "1.1-1");
    assert_eq!(found[0].repository, "aur");
}

#[test]
fn an_error_answer_is_an_error_not_an_empty_list() {
    let answer = InfoResponse { results: vec![], error: Some("No request type/data specified.".to_string()) };
    assert!(parse_aur_info(&Ok(answer), &foreign()).is_err());
    assert!(parse_aur_info(&Err("expected value at line 1 column 1".to_string()), &foreign()).is_err());
}

#[test]
fn paru_wins_over_yay_and_either_alone_is_found() {
    assert_eq!(first_helper(true, true), Some("paru"));
    assert_eq!(first_helper(false, true), Some("yay"));
    assert_eq!(first_helper(false, false), None);
}

#[test]
fn only_what_the_comparison_calls_newer_is_offered() {
    let answer = InfoResponse { results: vec![info("newer", "1.1-1"), info("same", "2.0-1"), info("older", "2.9-1")], error: None };
    let found = parse_aur_info(&Ok(answer), &foreign()).unwrap();
    let kept = newer_only(found, &vec![Some(b"1\n".to_vec()), Some(b"1\n".to_vec()), Some(b"-1\n".to_vec())]);
    assert_eq!(kept.iter().map(|candidate| candidate.name.as_str()).collect::<Vec<_>>(), ["newer"]);
}

#[test]
fn every_foreign_package_is_one_argument_of_the_request() {
    assert_eq!(request(&vec![]), None);
    let arguments = request(&foreign()).unwrap();
    assert!(arguments.iter().any(|argument| argument.contains("newer")));
    assert!(arguments.iter().any(|argument| argument.contains("older")));
    assert_eq!(request_failure(" curl: (6) \n"), "AUR request failed: curl: (6)");
}

#[test]
fn exit_1_is_an_empty_answer_unless_stderr_has_more_than_warnings() {
    assert!(!failed(Some(1), ""));
    assert!(!failed(Some(1), "warning: config file /etc/pacman.conf, line 9: directive 'Foo' not recognized.\n"));
    assert!(failed(Some(1), "error: config file /etc/pacman.conf could not be read: No such file or directory\n"));
    assert!(failed(Some(2), ""));
    assert!(failed(None, ""));
}

#[test]
fn upgrades_are_read_and_an_ignored_one_is_left_out() {
    let text = "linux 6.9.1-1 -> 6.9.2-1\nmesa 1:24.1.0-1 -> 1:24.1.1-1\nnvidia 550-1 -> 555-1 [ignored]\n";
    assert_eq!(
        parse_upgrades(text),
        [("linux", "6.9.1-1", "6.9.2-1"), ("mesa", "1:24.1.0-1", "1:24.1.1-1")].map(|(name, old, new)| (
            name.to_string(),
            old.to_string(),
            new.to_string()
        ))
    );
}

/// The bytes a printed size stands for.
fn bytes(size: &Option<PrintedSize>) -> Option<i64> {
    let size = size.as_ref()?;
    let value: f64 = size.value.parse().ok()?;
    Some((value * 1024f64.powi(size.power as i32)).round() as i64)
}

#[test]
fn download_sizes_are_bytes_and_a_cached_package_is_zero() {
    let sizes = parse_downloads("linux 148230012\nmesa 0\n");
    assert_eq!(download_of(&sizes, "linux"), Some(148_230_012));
    assert_eq!(download_of(&sizes, "mesa"), Some(0));
    assert_eq!(download_of(&sizes, "bash"), None);
}

#[test]
fn info_keeps_the_first_repo_that_carries_a_name() {
    let text = "Repository      : core\nName            : bash\nVersion         : 5.3.20-1\n\
                Download Size   : 1954.93 KiB\nInstalled Size  : 9820.16 KiB\n\n\
                Repository      : chaotic-aur\nName            : bash\nInstalled Size  : 1.00 KiB\n\n\
                Repository      : extra\nName            : mesa\nInstalled Size  : 120.50 MiB\n";
    let info = parse_info(text);
    let of = |name: &str| -> &PackageInfo { info.iter().find(|package| package.name == name).unwrap() };
    assert_eq!(info.len(), 2);
    assert_eq!((of("bash").repository.as_str(), bytes(&of("bash").installed_size)), ("core", Some(10_055_844)));
    assert_eq!((of("mesa").repository.as_str(), bytes(&of("mesa").installed_size)), ("extra", Some(126_353_408)));
}

#[test]
fn sizes_read_every_unit_pacman_prints() {
    assert_eq!(bytes(&size_parts("512.00 B")), Some(512));
    assert_eq!(bytes(&size_parts("1.50 GiB")), Some(1_610_612_736));
    assert_eq!(bytes(&size_parts("12 parsecs")), None);
}

#[test]
fn the_backend_names_itself_after_the_command_a_config_would_recognize() {
    let backend = PacmanBackend::new("/etc/pacman.conf".to_string(), "/var/lib/pacman".to_string(), None);
    assert_eq!(backend.name(), "pacman");

    let command = backend.install_command();
    assert_eq!(command.program, "pkexec", "elevation goes through polkit, so Mantle's own agent prompts");
    assert_eq!(command.arguments, vec!["pacman", "-Syu", "--noconfirm"]);
}

#[test]
fn a_detected_helper_installs_only_once_aur_is_asked_for() {
    let mut backend = PacmanBackend::new(String::new(), String::new(), Some("paru"));
    assert_eq!(backend.install_command().program, "pkexec");

    assert_eq!(backend.set_aur(true), None);
    let command = backend.install_command();
    assert_eq!(command.program, "paru");
    assert_eq!(command.arguments, ["-Syu", "--noconfirm", "--sudo", "pkexec", "--nosudoloop"]);
}

#[test]
fn aur_without_a_helper_is_an_error_and_pacman_still_installs() {
    let mut backend = PacmanBackend::new(String::new(), String::new(), None);

    assert_eq!(backend.set_aur(true).as_deref(), Some(NO_HELPER));
    assert_eq!(backend.install_command().program, "pkexec");
    assert_eq!(backend.set_aur(false), None);
}

#[test]
fn the_throwaway_db_root_reads_installed_packages_through_a_link_named_local() {
    // `alpm` looks specifically for `local/`; another link name makes every package look new.
    assert_eq!(
        link_local_db("/var/lib/pacman", "/tmp/throwaway", true),
        Ok(("/var/lib/pacman/local".to_string(), "/tmp/throwaway/local".to_string()))
    );
}

#[test]
fn a_db_root_with_no_local_directory_is_refused_rather_than_linked_to_nothing() {
    assert_eq!(
        link_local_db("/no-such-root", "/tmp/throwaway", false),
        Err("/no-such-root/local is not a directory; cannot check updates against it".to_string())
    );
}

#[test]
fn a_db_is_fetched_from_the_first_mirror_that_serves_it() {
    let refused = || Attempt::Refused(" curl: (22) 404 \n".to_string());
    assert_eq!(fetch_db("core", 2, &vec![]), FetchStep::Download(0));
    assert_eq!(fetch_db("core", 2, &vec![refused()]), FetchStep::Download(1));
    assert_eq!(fetch_db("core", 2, &vec![refused(), Attempt::Downloaded]), FetchStep::Store);
    assert_eq!(fetch_db("core", 2, &vec![Attempt::Unchanged]), FetchStep::Keep);
    assert_eq!(
        fetch_db("core", 2, &vec![refused(), refused()]),
        FetchStep::Fail("failed to sync core: curl: (22) 404".to_string())
    );
    assert_eq!(fetch_db("core", 0, &vec![]), FetchStep::Fail("failed to sync core: no Server configured".to_string()));
    assert_eq!(
        fetch_db("core", 2, &vec![Attempt::NotRun("not found".to_string())]),
        FetchStep::Fail("failed to run curl: not found".to_string())
    );
    assert_eq!(
        db_paths("/tmp/sync", "core"),
        ("/tmp/sync/core.db".to_string(), "/tmp/sync/core.db.part".to_string())
    );
    let arguments = fetch_arguments("https://mirror/core", "core", "/tmp/core.db.part", Some("/tmp/core.db"));
    assert_eq!(arguments.last().map(String::as_str), Some("https://mirror/core/core.db"));
    assert!(arguments.contains(&"--time-cond".to_string()));
}

#[test]
fn the_repos_are_the_configured_ones() {
    assert_eq!(repo_list("core\nextra\n", "/etc/pacman.conf"), Ok(vec!["core".to_string(), "extra".to_string()]));
    assert_eq!(
        repo_list(" \n", "/etc/pacman.conf"),
        Err("no repos configured in /etc/pacman.conf".to_string())
    );
}

#[test]
fn an_upgrade_is_joined_to_its_download_and_its_repo() {
    let (downloads, upgrades) = match outdated("linux 6.9.1-1 -> 6.9.2-1\n") {
        Outdated::Query { downloads, info, upgrades } => {
            assert_eq!(info, ["-Si", "linux"]);
            (downloads, upgrades)
        }
        Outdated::UpToDate => panic!("an upgrade was printed"),
    };
    assert_eq!(downloads, ["-Sddp", "--print-format", "%n %s", "linux"]);
    let sized = with_sizes(
        upgrades,
        "linux 148230012\n",
        "Repository      : core\nName            : linux\nInstalled Size  : 2.00 KiB\n",
    );
    assert_eq!(
        sized[0].candidate,
        UpdateCandidate {
            name: "linux".to_string(),
            old_version: "6.9.1-1".to_string(),
            new_version: "6.9.2-1".to_string(),
            download_size: 148_230_012,
            installed_size: 0,
            repository: "core".to_string(),
        }
    );
    assert_eq!(bytes(&sized[0].installed_size), Some(2048));
    assert!(matches!(outdated(""), Outdated::UpToDate));
}

#[test]
fn a_failed_aur_query_keeps_the_repos_answer() {
    let core = parse_aur_info(&Ok(InfoResponse { results: vec![info("newer", "1.1-1")], error: None }), &foreign()).unwrap();
    let made = report(core.clone(), Some(Err("AUR request failed: x".to_string())));
    assert_eq!(made, CheckReport { packages: core.clone(), aur_error: Some("AUR request failed: x".to_string()) });
    assert_eq!(report(core.clone(), Some(Ok(core.clone()))).packages.len(), 2);
    let mut backend = PacmanBackend::new(String::new(), String::new(), None);
    backend.set_aur(true);
    assert_eq!(backend.check(report(core, None)).aur_error.as_deref(), Some(NO_HELPER));
}

#[test]
fn a_child_that_did_not_answer_says_why() {
    let failed = |stderr: &str| ChildEnd::Failed { stderr: stderr.to_string(), status: "exit status: 1".to_string() };
    let error = |message: &str| Err(message.to_string());
    assert_eq!(check_in_a_child(failed(" \n")), error("the update check exited with exit status: 1"));
    assert_eq!(check_in_a_child(failed("error: x\n")), error("error: x"));
    assert_eq!(
        check_in_a_child(ChildEnd::NotSpawned("ENOENT".to_string())),
        error("failed to spawn the update check: ENOENT")
    );
    assert_eq!(
        check_in_a_child(ChildEnd::Unreadable("EOF".to_string())),
        error("the update check returned no readable result: EOF")
    );
    let report = CheckReport { packages: vec![], aur_error: None };
    assert_eq!(check_in_a_child(ChildEnd::Answered(Ok(report.clone()))), Ok(report));
    assert_eq!(check_env("/etc/pacman.conf", "/var/lib/pacman", false).len(), 3);
    assert!(check_env("/etc/pacman.conf", "/var/lib/pacman", true)
        .contains(&("MANTLE_PACMAN_AUR".to_string(), "1".to_string())));
}

#[test]
fn a_query_that_matches_nothing_is_an_empty_answer() {
    let output = |code, stderr: &str| {
        Ok(Output { code, status: "exit status: 1".into(), stdout: "linux 1\n".into(), stderr: stderr.into() })
    };
    let ran = run("pacman", output(Some(1), "warning: old\n\n")).unwrap();
    assert_eq!((ran.stdout.as_str(), ran.warnings), ("linux 1\n", vec!["warning: old".to_string()]));
    assert_eq!(run("pacman", output(Some(1), "error: no\n")), Err("pacman failed: error: no".to_string()));
    assert_eq!(run("pacman", Err("ENOENT".to_string())), Err("failed to run pacman: ENOENT".to_string()));
    assert_eq!(
        pacman("/c", "/d", &vec!["-Qu".to_string()]),
        ["--config", "/c", "--dbpath", "/d", "--color", "never", "-Qu"]
    );
    assert_eq!(repos_query("/c"), ["--config", "/c", "--repo-list"]);
    assert_eq!(servers_query("/c", "core"), ["--config", "/c", "--repo", "core", "Server"]);
}

#[test]
fn a_package_of_the_transaction_is_a_step() {
    let step = |current, total, package: &str| Some(InstallStep { current, total, package: package.to_string() });
    assert_eq!(parse_install_step("(1/2) installing nss (3.127-1 -> 3.128-1)"), step(1, 2, "nss"));
    assert_eq!(parse_install_step("( 3/12) upgrading gnome-autoar"), step(3, 12, "gnome-autoar"));
    assert_eq!(parse_install_step("(1/1) removing orphan..."), step(1, 1, "orphan..."));
}

#[test]
fn a_hook_a_check_and_a_broken_count_are_no_step() {
    assert_eq!(parse_install_step("(1/3) Arming ConditionNeedsUpdate..."), None);
    assert_eq!(parse_install_step("(5/5) checking keys in keyring"), None);
    assert_eq!(parse_install_step(":: Synchronizing package databases..."), None);
    assert_eq!(parse_install_step("(x/2) installing nss"), None);
    assert_eq!(parse_install_step("(12) installing nss"), None);
    assert_eq!(parse_install_step("(1/2) installing"), None);
    assert_eq!(parse_install_step("(1/2 installing nss"), None);
}
