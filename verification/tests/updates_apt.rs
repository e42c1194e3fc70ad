use supervisor::capabilities::updates::apt::check::{fill_sizes, parse_simulation};
use supervisor::capabilities::updates::apt::install::parse_install_step;
use supervisor::capabilities::updates::apt::{
    check_next, check_place, run_private, show_run, simulate_run, update_run, AptBackend, AptCheck, AptNext,
};
use supervisor::capabilities::updates::backend::{run, Backend, InstallStep, Output, UpdateCandidate};

/// `apt-get -s upgrade --with-new-pkgs` as a user on Ubuntu 24.04.
const UBUNTU_SIMULATION: &str = "\
NOTE: This is only a simulation!
  apt-get needs root privileges for real execution.
  Keep also in mind that locking is deactivated,
  so don't depend on the relevance to the real current situation!
Reading package lists...
Building dependency tree...
Reading state information...
Calculating upgrade...
The following packages will be upgraded:
  gzip libaudit-common libaudit1 perl-base
4 upgraded, 0 newly installed, 0 to remove and 0 not upgraded.
Inst gzip [1.12-1ubuntu3] (1.12-1ubuntu3.2 Ubuntu:24.04/noble-updates, Ubuntu:24.04/noble-security [amd64])
Conf gzip (1.12-1ubuntu3.2 Ubuntu:24.04/noble-updates, Ubuntu:24.04/noble-security [amd64])
Inst perl-base [5.38.2-3.2ubuntu0.4] (5.38.2-3.2ubuntu0.6 Ubuntu:24.04/noble-updates, Ubuntu:24.04/noble-security [amd64])
Conf perl-base (5.38.2-3.2ubuntu0.6 Ubuntu:24.04/noble-updates, Ubuntu:24.04/noble-security [amd64])
Inst libaudit-common [1:3.1.2-2.1build1.1] (1:3.1.2-2.1ubuntu0.1 Ubuntu:24.04/noble-updates [all])
Conf libaudit-common (1:3.1.2-2.1ubuntu0.1 Ubuntu:24.04/noble-updates [all])
Inst libaudit1 [1:3.1.2-2.1build1.1] (1:3.1.2-2.1ubuntu0.1 Ubuntu:24.04/noble-updates [amd64])
Conf libaudit1 (1:3.1.2-2.1ubuntu0.1 Ubuntu:24.04/noble-updates [amd64])
";

fn candidate(name: &str, old: &str, new: &str, repository: &str) -> UpdateCandidate {
    UpdateCandidate {
        name: name.to_string(),
        old_version: old.to_string(),
        new_version: new.to_string(),
        download_size: 0,
        installed_size: 0,
        repository: repository.to_string(),
    }
}

#[test]
fn each_inst_line_is_one_upgrade_with_every_suite_that_carries_it() {
    assert_eq!(
        parse_simulation(UBUNTU_SIMULATION),
        vec![
            candidate("gzip", "1.12-1ubuntu3", "1.12-1ubuntu3.2", "noble-updates,noble-security"),
            candidate("perl-base", "5.38.2-3.2ubuntu0.4", "5.38.2-3.2ubuntu0.6", "noble-updates,noble-security"),
            candidate("libaudit-common", "1:3.1.2-2.1build1.1", "1:3.1.2-2.1ubuntu0.1", "noble-updates"),
            candidate("libaudit1", "1:3.1.2-2.1build1.1", "1:3.1.2-2.1ubuntu0.1", "noble-updates"),
        ]
    );
}

#[test]
fn a_debian_security_upgrade_names_both_suites() {
    // Debian 13, with the installed version rewritten older in the dpkg status.
    let line = "Inst libssl3t64 [3.5.7-1~deb13u2~old] (3.5.7-1~deb13u2 Debian:13.7/stable, Debian-Security:13/stable-security [amd64])";
    assert_eq!(
        parse_simulation(line),
        vec![candidate("libssl3t64", "3.5.7-1~deb13u2~old", "3.5.7-1~deb13u2", "stable,stable-security")]
    );
}

#[test]
fn an_origin_with_a_space_and_a_trailing_hint_still_parse() {
    // Composed: a third-party origin, and the `[]` apt appends while ordering breaks a dependency.
    let line = "Inst google-chrome-stable [139.0-1] (140.0-1 Google LLC:1.0/stable [amd64]) []";
    assert_eq!(parse_simulation(line), vec![candidate("google-chrome-stable", "139.0-1", "140.0-1", "stable")]);
}

#[test]
fn a_newly_installed_dependency_is_not_an_upgrade() {
    let line = "Inst linux-image-6.8.0-90-generic (6.8.0-90.91 Ubuntu:24.04/noble-updates [amd64])";
    assert!(parse_simulation(line).is_empty());
}

#[test]
fn sizes_come_from_the_stanza_of_the_new_version() {
    // `apt-cache show gzip=1.12-1ubuntu3.2 perl-base=5.38.2-3.2ubuntu0.6`, trimmed.
    let show = "\
Package: gzip
Architecture: amd64
Version: 1.12-1ubuntu3.2
Installed-Size: 244
Depends: libc6 (>= 2.34)
Size: 99204
Description: GNU compression utilities
 This package provides the standard GNU file compression utilities.

Package: perl-base
Installed-Size: 7919
Version: 5.38.2-3.2ubuntu0.6
Size: 1825574
";

    let mut packages = vec![
        candidate("gzip", "1.12-1ubuntu3", "1.12-1ubuntu3.2", ""),
        candidate("perl-base", "5.38.2-3.2ubuntu0.4", "5.38.2-3.2ubuntu0.6", ""),
        candidate("sed", "4.9-2", "4.9-3", ""),
    ];
    fill_sizes(&mut packages, show);
    assert_eq!((packages[0].download_size, packages[0].installed_size), (99_204, 244 * 1024));
    assert_eq!((packages[1].download_size, packages[1].installed_size), (1_825_574, 7919 * 1024));
    assert_eq!((packages[2].download_size, packages[2].installed_size), (0, 0), "no stanza, no guess");
}

/// `apt-get -y upgrade --with-new-pkgs` as root on Ubuntu 24.04, trimmed.
const UBUNTU_INSTALL: &str = "\
Reading package lists...
The following packages will be upgraded:
  gzip libaudit-common libaudit1 perl-base
4 upgraded, 0 newly installed, 0 to remove and 0 not upgraded.
Need to get 1978 kB of archives.
Get:1 http://archive.ubuntu.com/ubuntu noble-updates/main amd64 gzip amd64 1.12-1ubuntu3.2 [99.2 kB]
Fetched 1978 kB in 1s (1697 kB/s)
Preparing to unpack .../gzip_1.12-1ubuntu3.2_amd64.deb ...
Unpacking gzip (1.12-1ubuntu3.2) over (1.12-1ubuntu3) ...
Setting up gzip (1.12-1ubuntu3.2) ...
Unpacking perl-base (5.38.2-3.2ubuntu0.6) over (5.38.2-3.2ubuntu0.4) ...
Setting up perl-base (5.38.2-3.2ubuntu0.6) ...
Setting up libaudit-common (1:3.1.2-2.1ubuntu0.1) ...
Unpacking libaudit1:amd64 (1:3.1.2-2.1ubuntu0.1) over (1:3.1.2-2.1build1.1) ...
Setting up libaudit1:amd64 (1:3.1.2-2.1ubuntu0.1) ...
Processing triggers for libc-bin (2.39-0ubuntu8.9) ...
";

#[test]
fn each_setting_up_line_is_the_next_of_the_summary_count() {
    let mut progress = (0, 0);
    let steps: Vec<_> = UBUNTU_INSTALL.lines().filter_map(|line| parse_install_step(&mut progress, line)).collect();
    let step = |current, package: &str| InstallStep { current, total: 4, package: package.to_string() };
    assert_eq!(
        steps,
        vec![step(1, "gzip"), step(2, "perl-base"), step(3, "libaudit-common"), step(4, "libaudit1:amd64")]
    );
}

#[test]
fn the_summary_restarts_a_count_left_by_the_last_run() {
    let mut progress = (7, 9);
    assert_eq!(
        parse_install_step(&mut progress, "1 upgraded, 2 newly installed, 0 to remove and 0 not upgraded."),
        None
    );
    assert_eq!(progress, (0, 3));
}

#[test]
fn a_step_beyond_the_summary_stays_at_the_total() {
    let mut progress = (1, 1);
    let step = parse_install_step(&mut progress, "Setting up libc-bin (2.39-0ubuntu8.9) ...").unwrap();
    assert_eq!((step.current, step.total), (1, 1));
}

#[test]
fn the_install_updates_the_real_lists_then_runs_the_upgrade_the_check_simulated() {
    let command = AptBackend::default().install_command();
    assert_eq!(command.program, "pkexec");
    assert_eq!(command.arguments[..5], ["env", "LC_ALL=C", "DEBIAN_FRONTEND=noninteractive", "sh", "-c"]);
    assert!(command.arguments[5].starts_with("apt-get update && apt-get -y "));
    assert!(command.arguments[5].ends_with(" upgrade --with-new-pkgs"));
}

#[test]
fn a_backend_counts_the_steps_of_its_own_install() {
    let mut backend = AptBackend::default();
    assert_eq!(backend.name(), "apt");
    assert_eq!(
        backend.parse_install_step("1 upgraded, 1 newly installed, 0 to remove and 0 not upgraded."),
        None
    );
    assert_eq!(
        backend.parse_install_step("Setting up gzip (1.12-1ubuntu3.2) ..."),
        Some(InstallStep { current: 1, total: 2, package: "gzip".to_string() })
    );
    assert_eq!(backend.install, (1, 2));
}

#[test]
fn the_check_asks_for_the_versions_on_offer() {
    assert_eq!(update_run().arguments, ["-q", "update", "--error-on=any"]);
    let simulation = simulate_run();
    assert_eq!(simulation.program, "apt-get");
    assert_eq!(simulation.arguments[0], "-s");
    assert_eq!(show_run(&vec![]), None);
    let run = show_run(&vec![candidate("gzip", "1.12-1ubuntu3", "1.12-1ubuntu3.2", "")]).unwrap();
    assert_eq!(run.program, "apt-cache");
    assert_eq!(run.arguments, ["show", "gzip=1.12-1ubuntu3.2"]);
}

#[test]
fn a_check_refreshes_simulates_and_asks_for_sizes() {
    let updated = check_next(AptCheck::Updating, Ok(String::new()));
    assert_eq!(updated, AptNext::Run { run: simulate_run(), check: AptCheck::Simulating });
    let line = "Inst gzip [1.12-1ubuntu3] (1.12-1ubuntu3.2 Ubuntu:24.04/noble-updates [amd64])\n";
    let showing = match check_next(AptCheck::Simulating, Ok(line.to_string())) {
        AptNext::Run { run, check } => {
            assert_eq!(run.arguments, ["show", "gzip=1.12-1ubuntu3.2"]);
            check
        }
        other => panic!("{other:?}"),
    };
    let show = "Package: gzip\nVersion: 1.12-1ubuntu3.2\nInstalled-Size: 244\nSize: 99204\n";
    match check_next(showing, Ok(show.to_string())) {
        AptNext::Done(Ok(report)) => {
            assert_eq!(report.packages.len(), 1);
            assert_eq!((report.packages[0].download_size, report.packages[0].installed_size), (99_204, 244 * 1024));
            assert_eq!(report.aur_error, None);
        }
        other => panic!("{other:?}"),
    }
    assert!(matches!(check_next(AptCheck::Simulating, Ok(String::new())), AptNext::Done(Ok(report)) if report.packages.is_empty()));
    assert_eq!(
        check_next(AptCheck::Updating, Err("apt-get failed: E: no mirror".to_string())),
        AptNext::Done(Err("apt-get failed: E: no mirror".to_string()))
    );
}

#[test]
fn a_check_keeps_to_its_own_place() {
    let place = check_place("/run/user/1000/mantle");
    assert_eq!(place.partial, "/run/user/1000/mantle/apt/lists/partial");
    assert_eq!(
        run_private(&place, update_run()),
        [
            "-c",
            "/run/user/1000/mantle/apt/apt.conf",
            "-o",
            "Dir::State::Lists=/run/user/1000/mantle/apt/lists",
            "-o",
            "Dir::Cache=/run/user/1000/mantle/apt/cache",
            "-q",
            "update",
            "--error-on=any"
        ]
    );
}

#[test]
fn every_non_zero_exit_is_a_failure() {
    let output = |code, stderr: &str| {
        Ok(Output { code, status: "exit status: 100".into(), stdout: "out".into(), stderr: stderr.into() })
    };
    assert_eq!(run("apt-get", output(Some(0), "W: old\n \n")).unwrap().warnings, ["W: old"]);
    assert_eq!(run("apt-get", output(Some(100), "")), Err("apt-get exited with exit status: 100".to_string()));
    assert_eq!(run("apt-get", output(None, "E: x\n")), Err("apt-get failed: E: x".to_string()));
    assert_eq!(run("apt-get", Err("ENOENT".to_string())), Err("failed to run apt-get: ENOENT".to_string()));
}
