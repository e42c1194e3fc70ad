use std::collections::HashMap;

use supervisor::capabilities::idle::controller::{
    listener_for, IdleController, Listener, NotifySetup, PublishedIdle, Registration,
};
use supervisor::capabilities::idle::inhibit::{
    apply_inhibit, apply_release_inhibit, apply_screensaver_inhibit, apply_screensaver_release,
    cleanup_generation_inhibit, drop_screensaver_peer, screensaver_object_paths, unknown_cookie, InhibitState,
    InhibitTransition,
};
use supervisor::capabilities::idle::state::{
    blocks_idle, foreign_idle_inhibitors, IdleInhibitor, IdleState, InhibitorRow,
};
use supervisor::capabilities::idle::{dispatch, IdleAction, IdleCall};

#[test]
fn apply_inhibit_opens_the_fd_on_the_global_zero_to_one_transition() {
    let mut counts = HashMap::new();
    let transition = apply_inhibit(&mut counts, 1);
    assert_eq!(transition, InhibitTransition { should_open_fd: true, should_close_fd: false });
    assert_eq!(counts.get(&1), Some(&1));
}

#[test]
fn apply_inhibit_does_not_reopen_the_fd_for_a_second_concurrent_generation() {
    let mut counts = HashMap::new();
    apply_inhibit(&mut counts, 1);
    let transition = apply_inhibit(&mut counts, 2);
    assert_eq!(transition, InhibitTransition { should_open_fd: false, should_close_fd: false });
    assert_eq!(counts.get(&1), Some(&1));
    assert_eq!(counts.get(&2), Some(&1));
}

#[test]
fn apply_release_inhibit_closes_the_fd_on_the_global_one_to_zero_transition() {
    let mut counts = HashMap::new();
    apply_inhibit(&mut counts, 1);
    let transition = apply_release_inhibit(&mut counts, 1);
    assert_eq!(transition, InhibitTransition { should_open_fd: false, should_close_fd: true });
    assert_eq!(counts.get(&1), Some(&0));
}

#[test]
fn apply_release_inhibit_from_one_generation_does_not_close_while_another_still_holds() {
    let mut counts = HashMap::new();
    apply_inhibit(&mut counts, 1);
    apply_inhibit(&mut counts, 2);

    let transition = apply_release_inhibit(&mut counts, 1);

    assert_eq!(
        transition,
        InhibitTransition { should_open_fd: false, should_close_fd: false },
        "generation 2 still holds an inhibit"
    );
    assert_eq!(counts.get(&1), Some(&0));
    assert_eq!(counts.get(&2), Some(&1));
}

#[test]
fn apply_release_inhibit_on_an_already_zero_generation_is_a_silent_no_op() {
    let mut counts = HashMap::new();
    apply_inhibit(&mut counts, 1);
    apply_release_inhibit(&mut counts, 1);

    let transition = apply_release_inhibit(&mut counts, 1);

    assert_eq!(transition, InhibitTransition { should_open_fd: false, should_close_fd: false });
    assert_eq!(counts.get(&1), Some(&0), "must not underflow below zero");
}

#[test]
fn apply_release_inhibit_on_a_never_registered_generation_is_a_silent_no_op() {
    let mut counts = HashMap::new();
    let transition = apply_release_inhibit(&mut counts, 42);
    assert_eq!(transition, InhibitTransition { should_open_fd: false, should_close_fd: false });
    assert!(!counts.contains_key(&42));
}

fn state() -> InhibitState {
    InhibitState { counts: HashMap::new(), screensaver: Vec::new(), next_cookie: 1 }
}

/// What the portal sends: no application name, a reason worth drawing.
fn hold(why: &str) -> IdleInhibitor {
    IdleInhibitor { who: String::new(), why: why.to_string() }
}

#[test]
fn the_first_screensaver_hold_opens_the_fd_and_cookies_start_at_one() {
    let mut state = state();

    let (first, transition) = apply_screensaver_inhibit(&mut state, ":1.42".into(), hold("Playing video"));

    assert_eq!(first, 1, "0 is a cookie some clients reject");
    assert!(transition.should_open_fd);
    let (second, transition) = apply_screensaver_inhibit(&mut state, ":1.42".into(), hold("Playing audio"));
    assert_eq!(second, 2);
    assert!(!transition.should_open_fd, "the same client's second hold is already covered");
    assert_eq!(state.screensaver.len(), 2);
}

/// The whole point of one refcount: a browser's hold and a config's `idle:inhibit` are the
/// same fd, so neither can drop it while the other wants it.
#[test]
fn a_screensaver_hold_neither_reopens_nor_closes_the_fd_a_config_generation_holds() {
    let mut state = state();
    apply_inhibit(&mut state.counts, 1);

    let (cookie, transition) = apply_screensaver_inhibit(&mut state, ":1.42".into(), hold("Playing video"));
    assert!(!transition.should_open_fd, "generation 1 already opened it");

    let transition = apply_screensaver_release(&mut state, cookie).expect("a live cookie");
    assert!(!transition.should_close_fd, "generation 1 still holds it");
    assert!(apply_release_inhibit(&mut state.counts, 1).should_close_fd, "and now the last holder is gone");
}

#[test]
fn releasing_an_unknown_cookie_moves_no_refcount() {
    let mut state = state();
    let (cookie, _) = apply_screensaver_inhibit(&mut state, ":1.42".into(), hold("Playing video"));
    apply_screensaver_release(&mut state, cookie).expect("a live cookie");

    assert_eq!(apply_screensaver_release(&mut state, cookie), None, "releasing twice must not close it again");
    assert_eq!(apply_screensaver_release(&mut state, 9999), None);
    assert_eq!(state.counts.values().sum::<u32>(), 0);
}

#[test]
fn a_departed_peer_loses_its_own_holds_and_no_one_elses() {
    let mut state = state();
    apply_screensaver_inhibit(&mut state, ":1.42".into(), hold("Playing video"));
    apply_screensaver_inhibit(&mut state, ":1.42".into(), hold("Playing audio"));
    let (survivor, _) = apply_screensaver_inhibit(&mut state, ":1.99".into(), hold("Presenting"));

    let transition = drop_screensaver_peer(&mut state, ":1.42").expect("that peer held two");

    assert!(!transition.should_close_fd, ":1.99 still holds one");
    assert_eq!(state.screensaver.iter().map(|hold| hold.cookie).collect::<Vec<u32>>(), vec![survivor]);
    assert!(drop_screensaver_peer(&mut state, ":1.99").expect("the last holder").should_close_fd);
    assert_eq!(drop_screensaver_peer(&mut state, ":1.42"), None, "a peer holding nothing releases nothing");
}

/// Two holds under one count: the first release brings it to zero, the second finds nothing more to
/// release, and the fd is closed all the same.
#[test]
fn a_departed_peer_closes_the_fd_at_whichever_of_its_holds_was_the_last() {
    let mut state = state();
    apply_screensaver_inhibit(&mut state, ":1.42".into(), hold("Playing video"));
    apply_screensaver_inhibit(&mut state, ":1.42".into(), hold("Playing audio"));
    apply_release_inhibit(&mut state.counts, u32::MAX);
    assert_eq!(state.counts.get(&u32::MAX), Some(&1));

    let transition = drop_screensaver_peer(&mut state, ":1.42").expect("that peer held two");

    assert_eq!(transition, InhibitTransition { should_open_fd: false, should_close_fd: true });
    assert_eq!(state.counts.get(&u32::MAX), Some(&0));
    assert!(state.screensaver.is_empty());
}

/// The reason [`SCREENSAVER_HOLDER`] sits at the top of the range: a config reload reaps its
/// own generation, and a film playing through it must not lose its hold.
#[test]
fn a_config_reload_reaps_its_generation_without_touching_a_screensaver_hold() {
    let mut state = state();
    apply_inhibit(&mut state.counts, 1);
    let (cookie, _) = apply_screensaver_inhibit(&mut state, ":1.42".into(), hold("Playing video"));

    let transition = cleanup_generation_inhibit(&mut state.counts, 1);

    assert!(!transition.should_close_fd, "the browser still holds the session awake");
    assert_eq!(state.screensaver.len(), 1);
    assert!(apply_screensaver_release(&mut state, cookie).expect("a live cookie").should_close_fd);
}

#[test]
fn cleanup_generation_inhibit_zeros_only_the_named_generation_and_closes_if_it_was_the_last() {
    let mut counts = HashMap::new();
    apply_inhibit(&mut counts, 1);

    let transition = cleanup_generation_inhibit(&mut counts, 1);

    assert_eq!(transition, InhibitTransition { should_open_fd: false, should_close_fd: true });
    assert!(!counts.contains_key(&1));
}

#[test]
fn cleanup_generation_inhibit_does_not_close_while_another_generation_still_holds() {
    let mut counts = HashMap::new();
    apply_inhibit(&mut counts, 1);
    apply_inhibit(&mut counts, 2);

    let transition = cleanup_generation_inhibit(&mut counts, 1);

    assert_eq!(transition, InhibitTransition { should_open_fd: false, should_close_fd: false });
    assert!(!counts.contains_key(&1));
    assert_eq!(counts.get(&2), Some(&1), "generation 2's own count must be untouched");
}

#[test]
fn cleanup_generation_inhibit_on_an_untracked_generation_is_a_silent_no_op() {
    let mut counts = HashMap::new();
    apply_inhibit(&mut counts, 1);

    let transition = cleanup_generation_inhibit(&mut counts, 99);

    assert_eq!(transition, InhibitTransition { should_open_fd: false, should_close_fd: false });
    assert_eq!(counts.get(&1), Some(&1));
}

// ---- what is published ----

/// `None` latches the previous answer, so only an explicit one clears a `true` nothing will
/// contradict.
#[test]
fn no_evidence_keeps_the_last_compositor_answer_and_only_an_explicit_one_replaces_it() {
    let mut published = PublishedIdle::default();
    published.set_wayland_inhibited(Some(true));

    published.set_wayland_inhibited(None);
    assert!(published.merged().inhibited, "no evidence must leave the held answer standing");

    published.set_wayland_inhibited(Some(false));
    assert!(!published.merged().inhibited, "a reap with no listeners left must be able to clear it");
}

#[test]
fn a_push_goes_out_only_when_the_payload_changed() {
    let mut published = PublishedIdle::default();
    let held = published.set_screensaver(vec![hold("Playing video")]).expect("a first hold is news");
    assert_eq!(held, IdleState { inhibited: true, inhibitors: vec![hold("Playing video")] });
    assert_eq!(published.set_screensaver(vec![hold("Playing video")]), None);
    assert_eq!(
        published.set_logind(true, vec![hold("Backup")]),
        Some(IdleState { inhibited: true, inhibitors: vec![hold("Backup"), hold("Playing video")] })
    );
}

// ---- the controller ----

#[test]
fn a_threshold_is_queued_until_the_notifier_is_live_and_then_replayed() {
    let mut controller = IdleController::new();
    assert_eq!(controller.register_threshold(1, 60), Registration::Queued);
    assert_eq!(controller.register_threshold(2, 90), Registration::Queued);
    assert!(!controller.reset_thresholds(2), "the queue drops generation 2's thresholds");
    assert_eq!(controller.setup_finished(NotifySetup::Live { version: 2 }), vec![(1, 60)]);
    assert_eq!(controller.register_threshold(1, 30), Registration::Register);
}

#[test]
fn a_timeout_is_milliseconds_and_saturates() {
    assert_eq!(listener_for(60, 2), Listener { timeout_ms: 60_000, input_twin: true });
    assert_eq!(listener_for(4_294_967, 1), Listener { timeout_ms: 4_294_967_000, input_twin: false });
    assert_eq!(listener_for(4_294_968, 1), Listener { timeout_ms: u32::MAX, input_twin: false });
}

#[test]
fn a_failed_open_gives_the_hold_back() {
    let mut controller = IdleController::new();
    assert!(controller.inhibit(1), "the first hold opens the lock");
    controller.open_shared_fd(1, false);
    assert!(controller.inhibit(1), "the failed one left no count behind");
    controller.open_shared_fd(1, true);
    assert!(!controller.inhibit(2));
    assert!(!controller.release_inhibit(2));
    assert!(controller.release_inhibit(1), "the last holder closes it");
}

#[test]
fn a_screensaver_client_that_leaves_the_bus_is_taken_off_the_roster() {
    let mut controller = IdleController::new();
    let (cookie, open) = controller.screensaver_inhibit(":1.42".into(), "firefox".into(), "Playing video".into());
    assert_eq!(cookie, 1);
    assert!(open);
    controller.open_shared_fd(u32::MAX, true);
    let pushed = controller.publish_screensaver().expect("the roster changed");
    assert_eq!(pushed.inhibitors, vec![IdleInhibitor { who: "firefox".into(), why: "Playing video".into() }]);
    assert!(controller.screensaver_release(9).is_none());
    let dropped = controller.screensaver_peer_left(":1.42").expect("it held one");
    assert!(dropped.close_fd);
    assert_eq!(dropped.push, Some(IdleState { inhibited: false, inhibitors: vec![] }));
}

#[test]
fn a_reload_clears_an_answer_nothing_will_contradict() {
    let mut controller = IdleController::new();
    assert!(controller.compositor_answered(Some(true)).is_some());
    let dropped = controller.reset_registrations(1, false);
    assert!(!dropped.close_fd);
    assert_eq!(dropped.push.map(|state| state.inhibited), Some(false));
    assert_eq!(controller.snapshot(), IdleState { inhibited: false, inhibitors: vec![] });
}

#[test]
fn an_unreadable_inhibitor_list_still_says_that_logind_blocks() {
    let mut controller = IdleController::new();
    let pushed = controller.logind_changed(true, None).expect("blocked is news");
    assert_eq!(pushed, IdleState { inhibited: true, inhibitors: vec![] });
}

#[test]
fn cookies_go_up_by_one_and_a_release_gives_none_back() {
    let mut controller = IdleController::new();
    assert!(controller.has_room());
    let (first, _) = controller.screensaver_inhibit(":1.42".into(), "firefox".into(), "Playing video".into());
    assert!(controller.screensaver_release(first).is_some());
    let (second, open) = controller.screensaver_inhibit(":1.42".into(), "firefox".into(), "Playing video".into());
    assert_eq!((first, second), (1, 2));
    assert!(open, "the release closed the lock");
    assert!(controller.screensaver_release(first).is_none(), "a spent cookie stays spent");
    assert!(controller.has_room());
}

#[test]
fn idle_is_one_of_what_an_inhibitor_names() {
    assert!(blocks_idle("idle"));
    assert!(blocks_idle("shutdown:idle:sleep"));
    assert!(!blocks_idle("shutdown:sleep"));
    assert!(!blocks_idle("handle-idle"), "a name that only ends so");
    assert!(!blocks_idle(""));
}

fn row(what: &str, who: &str, mode: &str, pid: u32) -> InhibitorRow {
    InhibitorRow { what: what.into(), who: who.into(), why: "because".into(), mode: mode.into(), pid }
}

#[test]
fn only_another_process_that_blocks_idle_is_listed() {
    let rows = vec![
        row("idle", "backup", "block", 7),
        row("sleep", "network", "block", 8),
        row("idle", "waiter", "delay", 9),
        row("idle", "own", "block", 10),
        row("sleep:idle", "film", "block", 11),
    ];
    let names: Vec<String> = foreign_idle_inhibitors(&rows, 10).into_iter().map(|inhibitor| inhibitor.who).collect();
    assert_eq!(names, ["backup", "film"]);
}

#[test]
fn only_the_holds_wait_on_logind() {
    assert_eq!(dispatch(IdleAction::Register { seconds: 60 }, 3), IdleCall::Register { generation: 3, seconds: 60 });
    assert_eq!(dispatch(IdleAction::Cancel { seconds: 60 }, 3), IdleCall::Cancel { generation: 3, seconds: 60 });
    assert_eq!(dispatch(IdleAction::ForgetThresholds, 3), IdleCall::ForgetThresholds { generation: 3 });
    assert_eq!(
        dispatch(IdleAction::Inhibit { reason: "film".into() }, 3),
        IdleCall::SpawnInhibit { generation: 3, reason: "film".into() }
    );
    assert_eq!(dispatch(IdleAction::ReleaseInhibit, 3), IdleCall::SpawnRelease { generation: 3 });
}

#[test]
fn both_object_paths_are_served() {
    assert_eq!(screensaver_object_paths(), ["/org/freedesktop/ScreenSaver", "/ScreenSaver"]);
    assert_eq!(unknown_cookie(7), "no inhibitor holds cookie 7");
}
