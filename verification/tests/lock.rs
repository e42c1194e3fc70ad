use supervisor::capabilities::lock::controller::{
    dispatch, LockAction, LockController, Release, SetSessionLock, MAX_UNLOCK_ANIMATION,
};
use supervisor::capabilities::lock::flag::{MarkerStep, SessionLockedFlag};
use supervisor::capabilities::lock::state::{
    accepts_outcome, apply, compositor_lock_change, error_for_outcome, may_authenticate, releases, LockEvent,
    LockOutcome, LockState, PamOutcome, SessionLock,
};

#[test]
fn only_the_compositor_confirming_a_lock_sets_the_marker_and_only_a_release_clears_it() {
    // A refusal never took a lock, so it must leave whatever the marker already said alone.
    assert_eq!(compositor_lock_change(&LockOutcome::Locked), SessionLock::Taken);
    assert_eq!(compositor_lock_change(&LockOutcome::Unlocked), SessionLock::Released);
    assert_eq!(compositor_lock_change(&LockOutcome::Finished), SessionLock::Released);
    assert_eq!(compositor_lock_change(&LockOutcome::Refused("no lock node".into())), SessionLock::Unchanged);
}

/// A state mid-session with one failure already recorded, so a transition's effect on
/// `attempts`/`error` is visible against the default.
fn locked_with_one_failure() -> LockState {
    LockState {
        active: true,
        authenticating: true,
        attempts: 1,
        error: "authentication failed".to_string(),
        requested: false,
        acquisition: 4,
        unlocking: false,
    }
}

#[test]
fn losing_the_renderer_clears_active_so_a_replacement_may_request_the_lock_again() {
    let mut state = locked_with_one_failure();
    apply(&mut state, LockEvent::RendererLost);
    assert!(!state.active, "the lock object died with the process that held it");
    assert!(!state.requested, "a request nothing will answer must not stay pending forever");
}

#[test]
fn losing_the_renderer_rejects_a_pam_answer_that_was_already_in_flight() {
    let mut state = locked_with_one_failure();
    let in_flight = state.acquisition;
    apply(&mut state, LockEvent::RendererLost);
    assert!(!accepts_outcome(&state, in_flight));
}

#[test]
fn losing_the_renderer_releases_the_authenticating_flag_it_was_holding() {
    let mut state = locked_with_one_failure();
    apply(&mut state, LockEvent::RendererLost);
    assert!(!state.authenticating, "the conversation's answer can no longer be applied, so its slot must be free");
}

#[test]
fn losing_the_renderer_does_not_renumber_the_acquisition() {
    let mut state = locked_with_one_failure();
    apply(&mut state, LockEvent::RendererLost);
    assert_eq!(state.acquisition, 4);
}

#[test]
fn a_failure_to_start_authentication_does_not_count_as_an_attempt() {
    let mut state = LockState { active: true, ..LockState::default() };

    apply(&mut state, LockEvent::Authenticated(PamOutcome::StartFailed("no worker".into())));
    assert_eq!(state.attempts, 0);
    apply(&mut state, LockEvent::Authenticated(PamOutcome::PamError("broken".into())));
    assert_eq!(state.attempts, 0);

    apply(&mut state, LockEvent::Authenticated(PamOutcome::AuthFailed));
    assert_eq!(state.attempts, 1, "a rejected password still counts");
    assert!(state.active, "and the lock is held throughout");
    assert!(!state.authenticating, "with another attempt allowed after each");
}

#[test]
fn lock_requested_clears_a_previous_attempts_refusal_reason_without_claiming_the_lock() {
    let mut state = LockState { error: "no lock node is declared".to_string(), ..LockState::default() };
    apply(&mut state, LockEvent::LockRequested);
    assert_eq!(state, LockState { requested: true, ..LockState::default() });
}

#[test]
fn authentication_needs_a_held_lock_and_no_attempt_already_in_flight() {
    assert!(!may_authenticate(&LockState::default()));
    assert!(!may_authenticate(&LockState { requested: true, ..LockState::default() }));
    assert!(may_authenticate(&LockState { active: true, ..LockState::default() }));
    assert!(!may_authenticate(&LockState { active: true, authenticating: true, ..LockState::default() }));
}

#[test]
fn locked_marks_the_session_active_and_resets_the_attempt_counter() {
    let mut state = LockState { attempts: 3, error: "authentication failed".to_string(), ..LockState::default() };
    apply(&mut state, LockEvent::Reported(LockOutcome::Locked));
    assert_eq!(
        state,
        LockState {
            active: true,
            authenticating: false,
            attempts: 0,
            error: String::new(),
            requested: false,
            acquisition: 1,
            unlocking: false
        }
    );
}

#[test]
fn refused_records_the_reason_and_leaves_the_session_unlocked() {
    let mut state = LockState::default();
    apply(&mut state, LockEvent::Reported(LockOutcome::Refused("no lock node is declared".to_string())));
    assert_eq!(
        state,
        LockState {
            active: false,
            authenticating: false,
            attempts: 0,
            error: "no lock node is declared".to_string(),
            requested: false,
            acquisition: 0,
            unlocking: false
        }
    );
}

#[test]
fn authentication_started_sets_authenticating() {
    let mut state = LockState { active: true, ..LockState::default() };
    apply(&mut state, LockEvent::AuthenticationStarted);
    assert_eq!(
        state,
        LockState {
            active: true,
            authenticating: true,
            attempts: 0,
            error: String::new(),
            requested: false,
            acquisition: 0,
            unlocking: false
        }
    );
}

#[test]
fn a_failed_authentication_counts_an_attempt_and_keeps_the_session_locked() {
    let mut state = LockState { active: true, authenticating: true, ..LockState::default() };
    apply(&mut state, LockEvent::Authenticated(PamOutcome::AuthFailed));
    assert_eq!(
        state,
        LockState {
            active: true,
            authenticating: false,
            attempts: 1,
            error: "authentication failed".to_string(),
            requested: false,
            acquisition: 0,
            unlocking: false
        }
    );

    // Two identical consecutive failures are one unchanged error string -- the counter is the
    // only thing that tells the config the second one happened.
    apply(&mut state, LockEvent::Authenticated(PamOutcome::AuthFailed));
    assert_eq!(state.attempts, 2);
}

#[test]
fn a_successful_authentication_stops_authenticating_but_does_not_itself_unlock() {
    let mut state = locked_with_one_failure();
    apply(&mut state, LockEvent::Authenticated(PamOutcome::Success));
    assert_eq!(
        state,
        LockState {
            active: true,
            authenticating: false,
            attempts: 1,
            error: String::new(),
            requested: false,
            acquisition: 4,
            unlocking: true
        }
    );
}

#[test]
fn unlocking_opens_on_a_correct_password_and_shuts_on_every_way_the_lock_ends() {
    let mut state = locked_with_one_failure();
    assert!(!state.unlocking, "a lock nobody has answered is not on its way out");

    apply(&mut state, LockEvent::Authenticated(PamOutcome::Success));
    assert!(state.unlocking, "a correct password opens the window");
    assert!(state.active, "and the lock is still on the glass while it is open");

    apply(&mut state, LockEvent::Reported(LockOutcome::Unlocked));
    assert!(!state.unlocking, "the release shuts it");

    // A relock during the animation.
    let mut state = locked_with_one_failure();
    apply(&mut state, LockEvent::Authenticated(PamOutcome::Success));
    apply(&mut state, LockEvent::Reported(LockOutcome::Locked));
    assert!(!state.unlocking, "a fresh lock is not a lock being left");

    // A wrong password does not open it.
    let mut state = locked_with_one_failure();
    apply(&mut state, LockEvent::Authenticated(PamOutcome::AuthFailed));
    assert!(!state.unlocking);
}

#[test]
fn a_release_scheduled_for_one_lock_does_not_apply_to_the_next() {
    let mut state = locked_with_one_failure();
    let authenticated = state.acquisition;
    apply(&mut state, LockEvent::Authenticated(PamOutcome::Success));
    assert!(releases(&state, authenticated), "the lock the password answered is still the one to release");

    // That lock ends and another takes its place while the timer is still sleeping.
    apply(&mut state, LockEvent::Reported(LockOutcome::Finished));
    apply(&mut state, LockEvent::Reported(LockOutcome::Locked));
    assert!(!releases(&state, authenticated));
    assert!(!releases(&state, state.acquisition), "and not by its own number either, with no password given");
}

#[test]
fn unlocked_and_finished_both_clear_the_session() {
    for outcome in [LockOutcome::Unlocked, LockOutcome::Finished] {
        let mut state = locked_with_one_failure();
        let name = format!("{outcome:?}");
        apply(&mut state, LockEvent::Reported(outcome));
        assert_eq!(
            state,
            LockState {
                active: false,
                authenticating: false,
                attempts: 1,
                error: String::new(),
                requested: false,
                acquisition: 4,
                unlocking: false
            },
            "{name}"
        );
    }
}

#[test]
fn a_stale_pam_outcome_cannot_release_the_lock_that_replaced_the_one_it_authenticated_against() {
    let mut state = LockState::default();
    apply(&mut state, LockEvent::LockRequested);
    apply(&mut state, LockEvent::Reported(LockOutcome::Locked));
    apply(&mut state, LockEvent::AuthenticationStarted);
    let acquisition = state.acquisition;
    assert!(accepts_outcome(&state, acquisition), "the answer is about the lock still on the glass");

    apply(&mut state, LockEvent::Reported(LockOutcome::Finished));
    assert!(!accepts_outcome(&state, acquisition), "the lock the password was typed against is gone");

    apply(&mut state, LockEvent::LockRequested);
    apply(&mut state, LockEvent::Reported(LockOutcome::Locked));
    assert!(!accepts_outcome(&state, acquisition), "nobody has authenticated against the new lock");
    assert!(accepts_outcome(&state, state.acquisition), "and the new lock's own attempt is still accepted");
}

#[test]
fn every_outcome_has_its_own_text() {
    assert_eq!(error_for_outcome(&PamOutcome::Success), "");
    assert_eq!(error_for_outcome(&PamOutcome::AuthFailed), "authentication failed");
    assert_eq!(error_for_outcome(&PamOutcome::MaxTries), "too many attempts");
    assert_eq!(
        error_for_outcome(&PamOutcome::StartFailed("no worker".into())),
        "authentication is unavailable; a terminal login can repair it. no worker"
    );
    assert_eq!(error_for_outcome(&PamOutcome::PamError("Abort".into())), "authentication error: Abort");
}

// ---- the controller ----

#[test]
fn the_unlock_animation_is_clamped_to_the_engines_ceiling() {
    let mut controller = LockController::new();
    assert_eq!(controller.unlock_animation(), 0, "no animation until a config asks");

    controller.set_unlock_animation(300);
    assert_eq!(controller.unlock_animation(), 300, "an ordinary window is taken");

    controller.set_unlock_animation(10_000);
    assert_eq!(controller.unlock_animation(), MAX_UNLOCK_ANIMATION, "a config cannot hold an answered lock open");

    controller.set_unlock_animation(0);
    assert_eq!(controller.unlock_animation(), 0, "and it can put the window back");
}

#[test]
fn lock_queues_the_set_session_lock_command_and_records_the_request() {
    let mut controller = LockController::new();

    assert_eq!(controller.lock(), Some(SetSessionLock { locked: true }));
    assert!(controller.snapshot().requested);
    assert!(!controller.snapshot().active, "the lock is not active until the Renderer reports Locked");

    controller.record(LockEvent::Reported(LockOutcome::Locked));
    assert!(controller.snapshot().active);

    assert_eq!(controller.unlock(), SetSessionLock { locked: false });
    assert!(controller.snapshot().active, "active clears on the Renderer's Unlocked report");
}

#[test]
fn try_begin_authentication_admits_exactly_one_attempt_at_a_time() {
    let mut controller = LockController::new();

    assert!(controller.try_begin_authentication().is_none(), "there is nothing to authenticate against");
    controller.record(LockEvent::Reported(LockOutcome::Locked));
    let acquisition = controller.try_begin_authentication().expect("a held lock admits the first attempt");
    assert!(controller.snapshot().authenticating);
    assert!(controller.try_begin_authentication().is_none(), "the first is still in flight");

    assert!(controller.record_authentication(acquisition, PamOutcome::AuthFailed));
    assert!(controller.try_begin_authentication().is_some(), "the worker's answer released it");
}

#[test]
fn a_stale_failure_neither_counts_against_the_new_lock_nor_overwrites_its_message() {
    let mut controller = LockController::new();
    controller.record(LockEvent::Reported(LockOutcome::Locked));
    let stale = controller.try_begin_authentication().expect("a held lock admits the attempt");
    controller.record(LockEvent::Reported(LockOutcome::Finished));
    controller.record(LockEvent::Reported(LockOutcome::Locked));

    assert!(!controller.record_authentication(stale, PamOutcome::AuthFailed));

    let state = controller.snapshot();
    assert_eq!(state.attempts, 0, "the new lock has seen no attempts");
    assert_eq!(state.error, "", "and nothing to say about one");
}

#[test]
fn a_second_lock_while_one_is_held_is_dropped_rather_than_left_unresolved() {
    let mut controller = LockController::new();

    let first = controller.lock();
    controller.record(LockEvent::Reported(LockOutcome::Locked));
    let second = controller.lock();

    assert_eq!(first, Some(SetSessionLock { locked: true }));
    assert_eq!(second, None, "the second lock() cannot change anything, so it is not sent either");
    assert!(!controller.snapshot().requested);
}

#[test]
fn dispatch_routes_lock_and_ignores_an_unknown_action() {
    let mut controller = LockController::new();
    assert_eq!(dispatch(&mut controller, LockAction::Lock), Some(SetSessionLock { locked: true }));

    let mut controller = LockController::new();
    assert_eq!(dispatch(&mut controller, LockAction::SetUnlockAnimation { ms: Some(300) }), None);
    assert_eq!(controller.unlock_animation(), 300);
    assert_eq!(dispatch(&mut controller, LockAction::SetUnlockAnimation { ms: None }), None);
    assert_eq!(controller.unlock_animation(), 0);
}

#[test]
fn dispatch_refuses_to_unlock() {
    // No action orders the lock open, whatever the lock's state.
    let mut controller = LockController::new();
    controller.record(LockEvent::Reported(LockOutcome::Locked));
    for action in [LockAction::Lock, LockAction::SetUnlockAnimation { ms: Some(1) }] {
        assert_ne!(dispatch(&mut controller, action), Some(SetSessionLock { locked: false }));
    }
    assert!(controller.snapshot().active);
}

#[test]
fn a_release_after_an_animation_is_for_the_lock_it_was_scheduled_for() {
    let mut controller = LockController::new();
    controller.set_unlock_animation(300);
    controller.record(LockEvent::Reported(LockOutcome::Locked));
    let acquisition = controller.try_begin_authentication().unwrap();
    assert!(controller.record_authentication(acquisition, PamOutcome::Success));
    let later = match controller.unlock_after_animation() {
        Release::After { ms, acquisition } => {
            assert_eq!(ms, 300);
            acquisition
        }
        other => panic!("{other:?}"),
    };
    assert_eq!(controller.release_due(later), Some(SetSessionLock { locked: false }));
    controller.record(LockEvent::Reported(LockOutcome::Finished));
    controller.record(LockEvent::Reported(LockOutcome::Locked));
    assert_eq!(controller.release_due(later), None);
}

// ---- the marker ----

/// The marker file: what a step does to whether it exists.
struct Marker {
    flag: SessionLockedFlag,
    exists: bool,
}

impl Marker {
    fn new() -> Self {
        Marker { flag: SessionLockedFlag::at("/run/user/1000/session-locked".to_string()), exists: false }
    }

    fn apply(&mut self, change: SessionLock) {
        match self.flag.apply(change) {
            MarkerStep::Create => self.exists = true,
            MarkerStep::Remove => self.exists = false,
            MarkerStep::Leave => {}
        }
    }

    fn is_set(&self) -> bool {
        self.flag.is_set(Some(self.exists))
    }
}

#[test]
fn a_renderer_that_died_holding_the_lock_leaves_the_marker_set() {
    let mut marker = Marker::new();
    marker.apply(compositor_lock_change(&LockOutcome::Locked));

    let mut state = LockState::default();
    apply(&mut state, LockEvent::Reported(LockOutcome::Locked));
    apply(&mut state, LockEvent::RendererLost);

    assert!(!state.active, "the crash means this shell holds nothing");
    assert!(marker.is_set(), "but the session is still locked, and the marker is what says so");
}

#[test]
fn the_marker_survives_the_process_that_wrote_it_and_reads_false_when_absent() {
    let mut marker = Marker::new();
    assert_eq!(marker.flag.path(), "/run/user/1000/session-locked");
    assert!(!marker.is_set(), "a fresh login has no marker");

    marker.apply(SessionLock::Taken);
    // A different flag value entirely: what a restarted supervisor is.
    marker.flag = SessionLockedFlag::at("/run/user/1000/session-locked".to_string());
    assert!(marker.is_set());

    marker.apply(SessionLock::Released);
    assert!(!marker.is_set());
}

#[test]
fn applying_the_same_change_twice_is_not_an_error() {
    let mut marker = Marker::new();
    marker.apply(SessionLock::Released);
    assert!(!marker.is_set());
    marker.apply(SessionLock::Taken);
    marker.apply(SessionLock::Taken);
    assert!(marker.is_set());
    marker.apply(SessionLock::Released);
    marker.apply(SessionLock::Released);
    assert!(!marker.is_set());
}

#[test]
fn an_unchanged_verdict_touches_nothing_in_either_direction() {
    let mut marker = Marker::new();
    marker.apply(SessionLock::Unchanged);
    assert!(!marker.is_set());
    marker.apply(SessionLock::Taken);
    marker.apply(SessionLock::Unchanged);
    assert!(marker.is_set(), "a refusal after a real lock must not erase it");
}

#[test]
fn only_a_confirmed_lock_moves_the_number() {
    let mut state = LockState::default();
    for event in [
        LockEvent::LockRequested,
        LockEvent::AuthenticationStarted,
        LockEvent::Authenticated(PamOutcome::Success),
        LockEvent::Reported(LockOutcome::Refused("busy".into())),
        LockEvent::Reported(LockOutcome::Finished),
        LockEvent::Reported(LockOutcome::Unlocked),
        LockEvent::RendererLost,
    ] {
        apply(&mut state, event);
        assert_eq!((state.acquisition, state.active, state.attempts), (0, false, 0));
    }
    apply(&mut state, LockEvent::Reported(LockOutcome::Locked));
    assert_eq!((state.acquisition, state.active), (1, true));
}

#[test]
fn a_refused_relock_keeps_the_held_lock_and_its_window() {
    let mut state = LockState::default();
    apply(&mut state, LockEvent::Reported(LockOutcome::Locked));
    apply(&mut state, LockEvent::Authenticated(PamOutcome::AuthFailed));
    apply(&mut state, LockEvent::Authenticated(PamOutcome::Success));
    apply(&mut state, LockEvent::Reported(LockOutcome::Refused("busy".into())));
    assert!(state.active && state.unlocking);
    assert_eq!(state.attempts, 1);
    assert!(releases(&state, 1));
}

#[test]
fn a_lost_renderer_leaves_the_error_and_the_attempts_for_its_replacement() {
    let mut state = LockState::default();
    apply(&mut state, LockEvent::Reported(LockOutcome::Locked));
    apply(&mut state, LockEvent::LockRequested);
    apply(&mut state, LockEvent::Authenticated(PamOutcome::MaxTries));
    apply(&mut state, LockEvent::RendererLost);
    assert!(!state.requested && !state.authenticating);
    assert_eq!((state.error.as_str(), state.attempts, state.acquisition), ("too many attempts", 1, 1));
}

#[test]
fn a_relock_during_the_animation_cancels_the_release() {
    let mut state = LockState::default();
    apply(&mut state, LockEvent::Reported(LockOutcome::Locked));
    apply(&mut state, LockEvent::Authenticated(PamOutcome::Success));
    assert!(releases(&state, 1));
    apply(&mut state, LockEvent::Reported(LockOutcome::Finished));
    apply(&mut state, LockEvent::Reported(LockOutcome::Locked));
    assert!(!releases(&state, 1));
    assert!(!releases(&state, 2));
}
