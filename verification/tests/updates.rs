use supervisor::capabilities::updates::apt::AptBackend;
use supervisor::capabilities::updates::backend::{
    detect, run_failure, CheckReport, Manager, Managers, UpdateCandidate,
};
use supervisor::capabilities::updates::controller::{
    check_step, first_check_is_due, push_log_line, CheckEvent, CheckStep, CheckWait, UpdatesConfigure,
    UpdatesController, UpdatesSignal, UpdatesState, LOG_TAIL_LINES,
};
use supervisor::capabilities::updates::dnf::DnfBackend;
use supervisor::capabilities::updates::pacman::PacmanBackend;
use supervisor::capabilities::updates::reboot::{watched, MarkerWatch, REBOOT_MARKER};

fn candidate() -> UpdateCandidate {
    UpdateCandidate {
        name: "linux".into(),
        old_version: "6.1".into(),
        new_version: "6.2".into(),
        download_size: 42,
        installed_size: 0,
        repository: "core".into(),
    }
}

/// A controller after the push its construction makes.
fn controller() -> UpdatesController<DnfBackend> {
    let (controller, signal) = UpdatesController::with_backend(Some(DnfBackend));
    assert_eq!(signal, UpdatesSignal::Changed, "construction pushes the backend's name");
    controller
}

fn seed(checked_at: Option<i64>, packages: Vec<UpdateCandidate>) -> UpdatesConfigure {
    UpdatesConfigure { interval_secs: 0, checked_at, packages, aur: false }
}

/// One requested check that fails.
fn fail_one_check(controller: &mut UpdatesController<DnfBackend>) {
    assert!(controller.check_now());
    assert!(controller.take_check());
    controller.check_started();
    assert!(controller.snapshot().checking);
    controller.check_ended(Ok(Err("this backend cannot check anything".to_string())), 1_800_000_000);
}

#[test]
fn a_remembered_check_seeds_an_empty_slot_with_its_list_and_never_overwrites_a_real_one() {
    let mut controller = controller();

    // Without a time the list has no age and is dropped, so a badge cannot light up from a
    // list nobody can call fresh.
    controller.configure(seed(None, vec![candidate()]));
    assert_eq!(controller.snapshot().count, 0);

    let configured = controller.configure(seed(Some(1_800_000_000), vec![candidate()])).unwrap();
    assert!(configured.changed, "a seed is Lua-visible, so it pushes");
    let seeded = controller.snapshot();
    assert_eq!(seeded.last_successful_check, Some(1_800_000_000));
    assert_eq!(seeded.packages, vec![candidate()]);
    assert_eq!(seeded.count, 1, "`count` is always `#packages`, seeded or checked");

    // A second seed is a later config reload, not a later check: the slot is taken.
    controller.configure(seed(Some(1_700_000_000), vec![]));
    let kept = controller.snapshot();
    assert_eq!(
        kept.last_successful_check,
        Some(1_800_000_000),
        "this must never move the last-check time backwards"
    );
    assert_eq!(kept.count, 1);
}

#[test]
fn a_manual_check_runs_with_no_schedule_configured_at_all() {
    // Dormant mode answers `check_now`; a config may use a button without a timer.
    let mut controller = controller();
    assert_eq!(controller.check_wait(1_800_000_000), CheckWait::Dormant);
    assert_eq!(check_step(CheckWait::Dormant, CheckEvent::Asked), CheckStep::CheckAndReplan);

    fail_one_check(&mut controller);

    let snapshot = controller.snapshot();
    assert!(!snapshot.checking, "checking must fall again once the answer is written");
    assert!(snapshot.check_error.is_some());
    assert_eq!(snapshot.consecutive_check_failures, 1);
    assert_eq!(snapshot.last_successful_check, None);
}

#[test]
fn failed_checks_count_up_and_leave_the_last_good_answer_alone() {
    let mut controller = controller();
    // A list from an earlier good check, which a failure must not blank.
    let report = CheckReport { packages: vec![candidate(), candidate(), candidate()], aur_error: None };
    controller.check_started();
    controller.check_ended(Ok(Ok(report)), 1_800_000_000);

    fail_one_check(&mut controller);
    fail_one_check(&mut controller);

    let snapshot = controller.snapshot();
    assert_eq!(snapshot.consecutive_check_failures, 2);
    assert_eq!(snapshot.count, 3, "a failed check reports the failure, it does not clear the list");
}

#[test]
fn a_check_that_panicked_is_a_failed_check() {
    let mut controller = controller();
    controller.check_started();
    controller.check_ended(Err("boom".to_string()), 1_800_000_000);
    assert_eq!(controller.snapshot().check_error.as_deref(), Some("check task panicked: boom"));
    assert_eq!(controller.snapshot().consecutive_check_failures, 1);
}

#[test]
fn the_first_check_of_a_process_is_due_immediately() {
    assert!(first_check_is_due(None, 1_800_000_000, 3600));
}

#[test]
fn a_reconfigure_within_the_interval_waits_rather_than_syncing_again() {
    let last = 1_800_000_000;
    assert!(!first_check_is_due(Some(last), last + 60, 3600));
}

#[test]
fn a_check_older_than_the_interval_is_due_again() {
    let last = 1_800_000_000;
    let interval = 3600;
    assert!(first_check_is_due(Some(last), last + 3600, interval), "exactly one interval old is due");
    assert!(first_check_is_due(Some(last), last + 7200, interval));
}

#[test]
fn a_last_check_stamped_in_the_future_does_not_underflow_into_due() {
    // A clock stepped backwards leaves a stamp ahead of `now`; that reads as "checked recently".
    let last = 1_800_000_000;
    assert!(!first_check_is_due(Some(last), last - 5000, 3600));
}

#[test]
fn a_schedule_skips_its_first_tick_while_the_last_check_is_fresh() {
    let mut controller = controller();
    let hourly = |checked_at| UpdatesConfigure { interval_secs: 3600, checked_at, packages: vec![], aur: false };
    assert_eq!(controller.configure(hourly(None)).unwrap().interval_secs, 3600);
    assert_eq!(
        controller.check_wait(1_800_000_000),
        CheckWait::Ticking { interval_secs: 3600, skip_first: false }
    );
    controller.configure(hourly(Some(1_800_000_000)));
    assert_eq!(
        controller.check_wait(1_800_000_060),
        CheckWait::Ticking { interval_secs: 3600, skip_first: true }
    );
    let ticking = CheckWait::Ticking { interval_secs: 3600, skip_first: true };
    assert_eq!(check_step(ticking, CheckEvent::Ticked), CheckStep::Check);
    assert_eq!(check_step(ticking, CheckEvent::Reconfigured), CheckStep::Replan);
    assert_eq!(check_step(ticking, CheckEvent::Gone), CheckStep::Stop);
}

#[test]
fn a_machine_with_no_package_manager_says_so_once_and_then_refuses_every_action() {
    // The whole point of the field: an indicator asks `package_manager` whether it belongs on
    // the bar, and on a machine with no manager nothing else would ever push to tell it.
    let (mut controller, signal) = UpdatesController::<DnfBackend>::with_backend(None);

    assert_eq!(signal, UpdatesSignal::Changed);
    assert_eq!(controller.snapshot().package_manager, None);

    let configured = controller.configure(UpdatesConfigure {
        interval_secs: 3600,
        checked_at: Some(1_800_000_000),
        packages: vec![],
        aur: false,
    });
    assert_eq!(configured, None);
    assert!(!controller.check_now());
    assert_eq!(controller.install(), None);

    assert_eq!(
        *controller.snapshot(),
        UpdatesState::default(),
        "no action may write state on a machine there is no manager to act with"
    );
}

#[test]
fn a_detected_backend_names_itself_before_anything_has_been_checked() {
    let controller = controller();

    let snapshot = controller.snapshot();
    assert_eq!(snapshot.package_manager.as_deref(), Some("dnf"));
    assert_eq!(snapshot.count, 0);
    assert_eq!(snapshot.last_successful_check, None, "naming the manager is not a check");
}

#[test]
fn updates_state_default_has_no_updates_and_no_errors() {
    let state = UpdatesState::default();
    assert_eq!(state.package_manager, None);
    assert_eq!(state.count, 0);
    assert!(state.packages.is_empty());
    assert_eq!(state.last_successful_check, None);
    assert_eq!(state.check_error, None);
    assert!(!state.installing);
}

/// A controller over pacman, with an install running.
fn pacman_installing() -> UpdatesController<PacmanBackend> {
    let backend = PacmanBackend::new("/etc/pacman.conf".to_string(), "/var/lib/pacman".to_string(), None);
    let (mut controller, _) = UpdatesController::with_backend(Some(backend));
    assert_eq!(controller.install().unwrap().program, "pkexec");
    assert!(controller.snapshot().installing);
    assert_eq!(controller.install(), None, "one at a time");
    controller
}

#[test]
fn run_install_with_child_parses_progress_and_detects_a_successful_completion() {
    let mut controller = pacman_installing();
    let signals = vec![
        controller.install_stdout_line(":: Synchronizing package databases...".to_string()),
        controller.install_stdout_line("(1/2) installing nss (3.127-1 -> 3.128-1)".to_string()),
        controller.install_stdout_line("(2/2) upgrading gnome-autoar".to_string()),
        controller.install_ended(Ok(Some(0)), 1_800_000_000),
    ];

    let snapshot = controller.snapshot();
    assert!(!snapshot.installing);
    assert_eq!(snapshot.install_current_step, 2);
    assert_eq!(snapshot.install_total_steps, 2);
    assert_eq!(snapshot.install_current_package, "gnome-autoar");
    assert_eq!(snapshot.install_error, None);
    assert_eq!(snapshot.install_log.len(), 3);

    // Every line rides the signal, not only the two that parse as progress: the `::` line is the
    // shape the whole download phase prints, and gating on progress froze the log there.
    let signal_count = signals.iter().filter(|signal| **signal == UpdatesSignal::Changed).count();
    assert_eq!(signal_count, 4, "one signal per output line plus one completion signal");
}

#[test]
fn a_line_of_stderr_is_logged_and_never_read_as_progress() {
    let mut controller = pacman_installing();
    controller.install_stdout_line("(1/2) installing nss (3.127-1 -> 3.128-1)".to_string());
    assert_eq!(controller.install_stderr_line("(2/2) upgrading curl".to_string()), UpdatesSignal::Changed);
    let snapshot = controller.snapshot();
    assert_eq!((snapshot.install_current_step, snapshot.install_total_steps), (1, 2));
    assert_eq!(snapshot.install_current_package, "nss");
    assert_eq!(snapshot.install_log.len(), 2);
}

#[test]
fn a_line_that_is_no_progress_keeps_the_step_before_it() {
    let mut controller = pacman_installing();
    controller.install_stdout_line("(3/4) reinstalling bash".to_string());
    controller.install_stdout_line("warning: something else".to_string());
    let snapshot = controller.snapshot();
    assert_eq!((snapshot.install_current_step, snapshot.install_total_steps), (3, 4));
    assert_eq!(snapshot.install_current_package, "bash");
}

#[test]
fn run_install_with_child_reports_pacmans_own_exit_code_rather_than_a_sentence() {
    let mut controller = controller();
    controller.install();
    controller.install_ended(Ok(Some(1)), 1_800_000_000);

    let snapshot = controller.snapshot();
    assert!(!snapshot.installing);
    assert_eq!(snapshot.install_exit_code, Some(1));
    assert!(snapshot.install_finished_at.is_some());
    assert_eq!(
        snapshot.install_error, None,
        "the package manager answering with a failure is not the Supervisor failing to ask"
    );
}

#[test]
fn an_install_that_could_not_be_run_or_waited_on_says_why() {
    let mut controller = controller();
    controller.install();
    controller.install_not_started("pkexec", "No such file");
    assert_eq!(controller.snapshot().install_error.as_deref(), Some("failed to spawn pkexec: No such file"));
    assert!(!controller.snapshot().installing);
    controller.install();
    assert_eq!(controller.snapshot().install_error, None, "a new run starts clean");
    controller.install_ended(Err("no child".to_string()), 1_800_000_000);
    assert_eq!(
        controller.snapshot().install_error.as_deref(),
        Some("failed to wait on the install command: no child")
    );
}

#[test]
fn the_install_log_keeps_both_streams_and_survives_a_line_that_is_not_progress() {
    let mut controller = pacman_installing();
    controller.install_stdout_line(":: Synchronizing package databases...".to_string());
    controller.install_stderr_line("error: target not found".to_string());
    controller.install_stdout_line("(1/1) upgrading nss".to_string());
    controller.install_ended(Ok(Some(0)), 1_800_000_000);
    let log = &controller.snapshot().install_log;
    assert!(log.contains(&":: Synchronizing package databases...".to_string()), "{log:?}");
    assert!(log.contains(&"(1/1) upgrading nss".to_string()), "{log:?}");
    assert!(log.contains(&"error: target not found".to_string()), "{log:?}");
}

#[test]
fn the_install_log_drops_the_oldest_line_once_it_is_full() {
    let mut log: Vec<String> = Vec::new();
    for index in 0..(LOG_TAIL_LINES + 5) {
        push_log_line(&mut log, index.to_string());
    }

    assert_eq!(log.len(), LOG_TAIL_LINES);
    assert_eq!(log.first().map(String::as_str), Some("5"), "the oldest five are the ones gone");
    assert_eq!(log.last().map(String::as_str), Some((LOG_TAIL_LINES + 4).to_string().as_str()));
}

// ---- the reboot marker ----

#[test]
fn a_marker_file_written_after_startup_raises_reboot_required() {
    let mut controller = controller();
    assert!(controller.publish_reboot_required(true), "the badge is Lua-visible, so it pushes");
    assert!(controller.snapshot().reboot_required);
    assert!(!controller.publish_reboot_required(true));
    assert!(controller.publish_reboot_required(false));
    assert!(!controller.snapshot().reboot_required);
}

#[test]
fn a_neighbouring_file_in_the_same_directory_is_ignored() {
    // `/run` is busy; only this one name may move the badge.
    assert_eq!(REBOOT_MARKER, "/run/mantle-reboot-required");
    let watch = watched("/tmp/x/reboot-required").unwrap();
    assert_eq!(watch, MarkerWatch { dir: "/tmp/x".to_string(), name: "reboot-required".to_string() });
    assert!(!watch.concerns(Some("something-else")));
    assert!(watch.concerns(Some("reboot-required")));
    assert_eq!(watched("/"), None);
}

// ---- the managers ----

#[test]
fn a_manager_is_taken_only_where_it_owns_packages() {
    let none = Managers {
        pacman_on_path: false,
        pacman_owns_packages: false,
        apt_get_on_path: false,
        dpkg_owns_packages: false,
        dnf_on_path: false,
    };
    assert_eq!(detect(none), None);
    assert_eq!(detect(Managers { dnf_on_path: true, pacman_on_path: true, ..none }), Some(Manager::Dnf));
    assert_eq!(detect(Managers { apt_get_on_path: true, dpkg_owns_packages: true, ..none }), Some(Manager::Apt));
    assert_eq!(
        detect(Managers { pacman_on_path: true, pacman_owns_packages: true, dnf_on_path: true, ..none }),
        Some(Manager::Pacman)
    );
}

#[test]
fn a_failed_run_says_what_the_program_said() {
    assert_eq!(run_failure("dnf", "", "exit status: 1"), "dnf exited with exit status: 1");
    assert_eq!(run_failure("dnf", " no mirror\n", "exit status: 1"), "dnf failed: no mirror");
}

#[test]
fn switching_the_aur_between_two_lines_keeps_the_count_of_an_install() {
    let (mut controller, _) = UpdatesController::with_backend(Some(AptBackend::default()));
    controller.install().unwrap();
    controller.install_stdout_line("1 upgraded, 1 newly installed, 0 to remove and 0 not upgraded.".to_string());
    controller.install_stdout_line("Setting up gzip (1.12-1ubuntu3.2) ...".to_string());
    controller.configure(UpdatesConfigure { interval_secs: 0, checked_at: None, packages: vec![], aur: true });
    controller.install_stdout_line("Setting up curl (8.5.0-2ubuntu10.6) ...".to_string());
    let snapshot = controller.snapshot();
    assert_eq!((snapshot.install_current_step, snapshot.install_total_steps), (2, 2));
    assert_eq!(snapshot.install_current_package, "curl");
}
