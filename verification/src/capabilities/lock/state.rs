//! The lock's transition table. Only the Renderer's report moves `active`; a request or a correct
//! password is still unconfirmed.

use vstd::prelude::*;

verus! {

/// What a PAM conversation came to.
#[derive(Debug, PartialEq, Eq)]
pub enum PamOutcome {
    Success,
    AuthFailed,
    MaxTries,
    /// No worker could be started.
    StartFailed(String),
    PamError(String),
}

/// What the Renderer reports of the lock.
#[derive(Debug, PartialEq, Eq)]
pub enum LockOutcome {
    Locked,
    Refused(String),
    /// The compositor ended the lock.
    Finished,
    Unlocked,
}

/// `mantle.lock`'s payload. An empty `error` means no failure.
#[derive(Debug, PartialEq, Eq)]
pub struct LockState {
    /// The Renderer confirmed the session locked. A requested but unconfirmed lock remains `false`.
    pub active: bool,
    /// A password is with PAM and unanswered; a second submit is refused while true.
    pub authenticating: bool,
    /// Passwords PAM rejected since the lock was taken. Resets to `0` only on a new confirmed lock.
    pub attempts: u32,
    /// Drawable reason for the last failure. Empty before attempts or after success; rewritten on
    /// every PAM answer and cleared on a new lock.
    pub error: String,
    /// PAM has said yes and the lock is still on the glass: the window a config animates its lock
    /// screen out in.
    pub unlocking: bool,
    /// A lock was asked for and is not yet confirmed. Bookkeeping, not payload: a respawn must
    /// still retake it.
    pub requested: bool,
    /// Acquisition number, bumped only when the Renderer reports `Locked`. Bookkeeping. PAM can
    /// outlive its lock; the number binds an answer to its question and blocks stale success.
    pub acquisition: u64,
}

/// Events from Lua `lock()`, the PAM worker, or the Renderer.
#[derive(Debug, PartialEq, Eq)]
pub enum LockEvent {
    /// `lock.lock()` was dispatched; the command to take the lock is on its way out.
    LockRequested,
    /// A password was submitted and PAM is starting.
    AuthenticationStarted,
    /// The worker's answer, already checked against its acquisition.
    Authenticated(PamOutcome),
    /// The Renderer's report of the lock outcome.
    Reported(LockOutcome),
    /// The lock's holder died without a report. The compositor keeps the session locked; only this
    /// shell's ability to speak for it ended.
    RendererLost,
}

/// What a [`LockState`] says.
pub struct LockView {
    pub active: bool,
    pub authenticating: bool,
    pub attempts: nat,
    pub error: Seq<char>,
    pub unlocking: bool,
    pub requested: bool,
    pub acquisition: nat,
}

impl View for LockState {
    type V = LockView;

    open spec fn view(&self) -> LockView {
        LockView {
            active: self.active,
            authenticating: self.authenticating,
            attempts: self.attempts as nat,
            error: self.error@,
            unlocking: self.unlocking,
            requested: self.requested,
            acquisition: self.acquisition as nat,
        }
    }
}

/// Nothing is locked, asked for or counted.
pub open spec fn unlocked() -> LockView {
    LockView {
        active: false,
        authenticating: false,
        attempts: 0,
        error: Seq::empty(),
        unlocking: false,
        requested: false,
        acquisition: 0,
    }
}

impl Default for LockState {
    fn default() -> (state: Self)
        ensures
            state@ == unlocked(),
    {
        LockState {
            active: false,
            authenticating: false,
            attempts: 0,
            error: String::new(),
            unlocking: false,
            requested: false,
            acquisition: 0,
        }
    }
}

impl Clone for LockState {
    fn clone(&self) -> (state: Self)
        ensures
            state == *self,
    {
        LockState {
            active: self.active,
            authenticating: self.authenticating,
            attempts: self.attempts,
            error: self.error.clone(),
            unlocking: self.unlocking,
            requested: self.requested,
            acquisition: self.acquisition,
        }
    }
}

/// The lock screen's line for a PAM answer; none for a success.
pub open spec fn error_text(outcome: PamOutcome) -> Seq<char> {
    match outcome {
        PamOutcome::Success => Seq::empty(),
        PamOutcome::AuthFailed => "authentication failed"@,
        PamOutcome::MaxTries => "too many attempts"@,
        PamOutcome::StartFailed(err) => "authentication is unavailable; a terminal login can repair it. "@ + err@,
        PamOutcome::PamError(err) => "authentication error: "@ + err@,
    }
}

/// Whether PAM looked at the password and said no. A worker that does not run is no wrong password.
pub open spec fn rejects_password(event: LockEvent) -> bool {
    event == LockEvent::Authenticated(PamOutcome::AuthFailed) || event == LockEvent::Authenticated(
        PamOutcome::MaxTries,
    )
}

pub open spec fn takes_lock(event: LockEvent) -> bool {
    event == LockEvent::Reported(LockOutcome::Locked)
}

/// Whether this shell holds no lock after the event, whatever it held before.
pub open spec fn ends_lock(event: LockEvent) -> bool {
    ||| event == LockEvent::Reported(LockOutcome::Finished)
    ||| event == LockEvent::Reported(LockOutcome::Unlocked)
    ||| event == LockEvent::RendererLost
}

/// The transition table.
pub open spec fn next(state: LockView, event: LockEvent) -> LockView {
    match event {
        LockEvent::LockRequested => LockView { requested: true, error: Seq::empty(), ..state },
        LockEvent::AuthenticationStarted => LockView { authenticating: true, ..state },
        LockEvent::Authenticated(outcome) => LockView {
            authenticating: false,
            error: error_text(outcome),
            unlocking: state.unlocking || outcome is Success,
            attempts: if rejects_password(event) {
                state.attempts + 1
            } else {
                state.attempts
            },
            ..state
        },
        LockEvent::Reported(LockOutcome::Locked) => LockView {
            active: true,
            authenticating: false,
            attempts: 0,
            error: Seq::empty(),
            unlocking: false,
            requested: false,
            acquisition: state.acquisition + 1,
        },
        LockEvent::Reported(LockOutcome::Refused(reason)) => LockView {
            requested: false,
            authenticating: false,
            error: reason@,
            ..state
        },
        LockEvent::Reported(LockOutcome::Finished) | LockEvent::Reported(LockOutcome::Unlocked) => LockView {
            active: false,
            requested: false,
            authenticating: false,
            error: Seq::empty(),
            unlocking: false,
            ..state
        },
        LockEvent::RendererLost => LockView {
            active: false,
            requested: false,
            authenticating: false,
            unlocking: false,
            ..state
        },
    }
}

/// Whether the counters have room for the event.
pub open spec fn room_for(state: LockView, event: LockEvent) -> bool {
    &&& rejects_password(event) ==> state.attempts < u32::MAX
    &&& takes_lock(event) ==> state.acquisition < u64::MAX
}

/// The lock screen's failed-authentication line. Polkit uses the same words.
pub fn error_for_outcome(outcome: &PamOutcome) -> (text: String)
    ensures
        text@ == error_text(*outcome),
{
    match outcome {
        PamOutcome::Success => String::new(),
        PamOutcome::AuthFailed => "authentication failed".to_owned(),
        PamOutcome::MaxTries => "too many attempts".to_owned(),
        // Names the repair, because no password can work and the user is looking at the only
        // screen that will not tell them so.
        PamOutcome::StartFailed(err) => {
            "authentication is unavailable; a terminal login can repair it. ".to_owned().concat(err.as_str())
        },
        PamOutcome::PamError(err) => "authentication error: ".to_owned().concat(err.as_str()),
    }
}

/// Applies one event.
pub fn apply(state: &mut LockState, event: LockEvent)
    requires
        room_for(old(state)@, event),
    ensures
        final(state)@ == next(old(state)@, event),
{
    match event {
        LockEvent::LockRequested => {
            state.requested = true;
            state.error = String::new();
        },
        LockEvent::AuthenticationStarted => {
            state.authenticating = true;
        },
        LockEvent::Authenticated(outcome) => {
            state.authenticating = false;
            match outcome {
                // The password was right and the lock is still up: the whole of the out-animation's
                // window, and true whether or not one is configured.
                PamOutcome::Success => {
                    state.unlocking = true;
                },
                PamOutcome::AuthFailed | PamOutcome::MaxTries => {
                    state.attempts += 1;
                },
                PamOutcome::StartFailed(_) | PamOutcome::PamError(_) => {},
            }
            state.error = error_for_outcome(&outcome);
        },
        LockEvent::Reported(LockOutcome::Locked) => {
            state.active = true;
            state.requested = false;
            state.authenticating = false;
            state.attempts = 0;
            state.error = String::new();
            // An idle timer can lock again while the last unlock's animation is still playing, and
            // the new screen must come up locked.
            state.unlocking = false;
            state.acquisition += 1;
        },
        LockEvent::Reported(LockOutcome::Refused(reason)) => {
            state.requested = false;
            state.authenticating = false;
            state.error = reason;
        },
        LockEvent::Reported(LockOutcome::Finished) | LockEvent::Reported(LockOutcome::Unlocked) => {
            state.active = false;
            state.requested = false;
            state.authenticating = false;
            state.error = String::new();
            state.unlocking = false;
        },
        // The error stays: the screen that showed it is gone, and the replacement may show it.
        LockEvent::RendererLost => {
            state.active = false;
            state.requested = false;
            state.authenticating = false;
            state.unlocking = false;
        },
    }
}

pub open spec fn still_releases(state: LockView, acquisition: nat) -> bool {
    state.acquisition == acquisition && state.unlocking
}

pub open spec fn admits_password(state: LockView) -> bool {
    state.active && !state.authenticating
}

pub open spec fn accepts(state: LockView, acquisition: nat) -> bool {
    state.active && state.acquisition == acquisition
}

/// Whether a release scheduled for `acquisition` still applies.
pub fn releases(state: &LockState, acquisition: u64) -> (applies: bool)
    ensures
        applies == still_releases(state@, acquisition as nat),
{
    state.acquisition == acquisition && state.unlocking
}

/// What an outcome says about the compositor's lock. `LockState.active` means that this shell holds
/// it, but the compositor's lock outlives that.
#[derive(Debug, Clone, Copy, PartialEq, Eq, Structural)]
pub enum SessionLock {
    Taken,
    Released,
    Unchanged,
}

/// What a report changes about the compositor's lock. A refusal took and released nothing.
pub fn compositor_lock_change(outcome: &LockOutcome) -> (change: SessionLock)
    ensures
        change == (match *outcome {
            LockOutcome::Locked => SessionLock::Taken,
            LockOutcome::Unlocked | LockOutcome::Finished => SessionLock::Released,
            LockOutcome::Refused(_) => SessionLock::Unchanged,
        }),
{
    match outcome {
        LockOutcome::Locked => SessionLock::Taken,
        LockOutcome::Unlocked | LockOutcome::Finished => SessionLock::Released,
        LockOutcome::Refused(_) => SessionLock::Unchanged,
    }
}

/// Whether a submitted password may start PAM. Without a held lock any config text field would be a
/// password oracle; with an attempt in flight a held Enter would start one worker per keypress.
pub fn may_authenticate(state: &LockState) -> (may: bool)
    ensures
        may == admits_password(state@),
{
    state.active && !state.authenticating
}

/// Whether `acquisition` still names the lock on screen.
pub fn accepts_outcome(state: &LockState, acquisition: u64) -> (accepted: bool)
    ensures
        accepted == accepts(state@, acquisition as nat),
{
    state.active && state.acquisition == acquisition
}

// ---- laws ----

/// What a series of events leaves.
pub open spec fn run(state: LockView, events: Seq<LockEvent>) -> LockView
    decreases events.len(),
{
    if events.len() == 0 {
        state
    } else {
        next(run(state, events.drop_last()), events.last())
    }
}

/// How many passwords were rejected.
pub open spec fn rejections(events: Seq<LockEvent>) -> nat
    decreases events.len(),
{
    if events.len() == 0 {
        0
    } else {
        rejections(events.drop_last()) + (if rejects_password(events.last()) {
            1nat
        } else {
            0
        })
    }
}

/// `active` follows the Renderer alone: a reported lock sets it, a reported end or the Renderer's own
/// end clears it, and nothing else moves it.
pub proof fn only_the_renderer_moves_active(state: LockView, event: LockEvent)
    ensures
        takes_lock(event) ==> next(state, event).active,
        ends_lock(event) ==> !next(state, event).active,
        !takes_lock(event) && !ends_lock(event) ==> next(state, event).active == state.active,
{
}

/// A reported lock gets the next number, and no other event renumbers.
pub proof fn only_a_confirmed_lock_is_numbered(state: LockView, event: LockEvent)
    ensures
        next(state, event).acquisition == (if takes_lock(event) {
            state.acquisition + 1
        } else {
            state.acquisition
        }),
{
}

/// A rejected password counts one attempt, a reported lock starts the count anew, and no other
/// event touches it: a worker that did not run, a correct password or an unlock included.
pub proof fn an_attempt_is_a_rejected_password(state: LockView, event: LockEvent)
    ensures
        next(state, event).attempts == (if rejects_password(event) {
            state.attempts + 1
        } else if takes_lock(event) {
            0
        } else {
            state.attempts
        }),
{
}

/// A correct password opens the unlocking window, every end and every new lock shuts it, and
/// nothing else moves it: a wrong password, a refused lock or a request leave it as it was.
pub proof fn a_correct_password_opens_the_window(state: LockView, event: LockEvent)
    ensures
        next(state, event).unlocking == (if event == LockEvent::Authenticated(PamOutcome::Success) {
            true
        } else if takes_lock(event) || ends_lock(event) {
            false
        } else {
            state.unlocking
        }),
{
}

/// A lock that ended or was taken anew has no password with PAM, so none of its submits is refused
/// for an older one.
pub proof fn an_ended_or_new_lock_waits_for_no_answer(state: LockView, event: LockEvent)
    ensures
        (state.active && !next(state, event).active) || next(state, event).acquisition != state.acquisition
            ==> !next(state, event).authenticating,
{
}

/// The Renderer's end withdraws a pending request, and keeps what the replacement may show: the
/// error, the attempts and the lock's number.
pub proof fn a_lost_renderer_keeps_what_was_said(state: LockView)
    ensures
        !next(state, LockEvent::RendererLost).requested,
        !next(state, LockEvent::RendererLost).authenticating,
        next(state, LockEvent::RendererLost).error == state.error,
        next(state, LockEvent::RendererLost).attempts == state.attempts,
        next(state, LockEvent::RendererLost).acquisition == state.acquisition,
{
}

/// A correct password schedules the release of the lock on screen. If the compositor ends that lock
/// and another is taken, the release applies to neither.
pub proof fn a_relock_cancels_the_release(state: LockView)
    ensures
        ({
            let opened = next(state, LockEvent::Authenticated(PamOutcome::Success));
            let ended = next(opened, LockEvent::Reported(LockOutcome::Finished));
            let relocked = next(ended, LockEvent::Reported(LockOutcome::Locked));
            &&& still_releases(opened, state.acquisition)
            &&& !still_releases(relocked, state.acquisition)
            &&& !still_releases(relocked, relocked.acquisition)
        }),
{
}

/// A PAM answer, whichever it is, leaves the lock on the glass: it changes neither `active` nor the
/// acquisition.
pub proof fn an_answer_never_unlocks(state: LockView, outcome: PamOutcome)
    ensures
        next(state, LockEvent::Authenticated(outcome)).active == state.active,
        next(state, LockEvent::Authenticated(outcome)).acquisition == state.acquisition,
{
}

/// Every way a lock ends or begins anew shuts the unlocking window and frees the PAM slot.
pub proof fn every_end_shuts_the_window(state: LockView, event: LockEvent)
    requires
        ends_lock(event) || takes_lock(event),
    ensures
        !next(state, event).unlocking,
        !next(state, event).authenticating,
        !next(state, event).requested,
{
}

proof fn lemma_acquisition_only_grows(state: LockView, events: Seq<LockEvent>)
    ensures
        run(state, events).acquisition >= state.acquisition,
        (exists|i: int| 0 <= i < events.len() && takes_lock(#[trigger] events[i])) ==> run(state, events).acquisition
            > state.acquisition,
    decreases events.len(),
{
    if events.len() > 0 {
        let before = events.drop_last();
        lemma_acquisition_only_grows(state, before);
        if exists|i: int| 0 <= i < events.len() && takes_lock(#[trigger] events[i]) {
            let i = choose|i: int| 0 <= i < events.len() && takes_lock(#[trigger] events[i]);
            if i < before.len() {
                assert(takes_lock(before[i]));
            }
        }
    }
}

/// An answer for the lock that `state` holds is accepted only while that lock lasts: once it ended,
/// or another was taken, the answer is refused for good.
pub proof fn a_stale_answer_is_never_accepted(state: LockView, events: Seq<LockEvent>, i: int)
    requires
        0 <= i < events.len(),
        ends_lock(events[i]) || takes_lock(events[i]),
    ensures
        !accepts(run(state, events), state.acquisition),
    decreases events.len(),
{
    lemma_acquisition_only_grows(state, events);
    if takes_lock(events[i]) {
    } else if i < events.len() - 1 {
        let before = events.drop_last();
        assert(before[i] == events[i]);
        a_stale_answer_is_never_accepted(state, before, i);
        lemma_acquisition_only_grows(state, before);
    }
}

/// A release scheduled for one lock does not apply to the next.
pub proof fn a_release_does_not_outlive_its_lock(state: LockView, events: Seq<LockEvent>, i: int)
    requires
        0 <= i < events.len(),
        takes_lock(events[i]),
    ensures
        !still_releases(run(state, events), state.acquisition),
{
    lemma_acquisition_only_grows(state, events);
}

/// A lock is released only after a correct password: without one since the lock was taken, no
/// release applies, its own number included.
pub proof fn no_release_without_a_password(state: LockView, events: Seq<LockEvent>, acquisition: nat)
    requires
        !state.unlocking,
        forall|i: int|
            0 <= i < events.len() ==> #[trigger] events[i] != LockEvent::Authenticated(PamOutcome::Success),
    ensures
        !still_releases(run(state, events), acquisition),
    decreases events.len(),
{
    if events.len() > 0 {
        let before = events.drop_last();
        assert forall|i: int| 0 <= i < before.len() implies #[trigger] before[i] != LockEvent::Authenticated(
            PamOutcome::Success,
        ) by {
            assert(before[i] == events[i]);
        }
        no_release_without_a_password(state, before, run(state, before).acquisition);
        assert(events.last() == events[events.len() - 1]);
    }
}

/// While one lock lasts, `attempts` counts exactly the rejected passwords.
pub proof fn attempts_count_rejections(state: LockView, events: Seq<LockEvent>)
    requires
        forall|i: int| 0 <= i < events.len() ==> !takes_lock(#[trigger] events[i]),
    ensures
        run(state, events).attempts == state.attempts + rejections(events),
    decreases events.len(),
{
    if events.len() > 0 {
        let before = events.drop_last();
        assert forall|i: int| 0 <= i < before.len() implies !takes_lock(#[trigger] before[i]) by {
            assert(before[i] == events[i]);
        }
        attempts_count_rejections(state, before);
        assert(events.last() == events[events.len() - 1]);
    }
}

/// Each event says what the lock screen shows as its error: a PAM answer its own line, a refusal its
/// reason, and a request, a new lock and an end nothing. The start of an attempt and the Renderer's
/// end leave it.
pub proof fn an_error_is_the_last_one_said(state: LockView, event: LockEvent)
    ensures
        event matches LockEvent::Authenticated(outcome) ==> next(state, event).error == error_text(outcome),
        event matches LockEvent::Reported(LockOutcome::Refused(reason)) ==> next(state, event).error == reason@,
        event is LockRequested || event == LockEvent::Reported(LockOutcome::Locked) || event == LockEvent::Reported(
            LockOutcome::Finished,
        ) || event == LockEvent::Reported(LockOutcome::Unlocked) ==> next(state, event).error.len() == 0,
        event is AuthenticationStarted || event is RendererLost ==> next(state, event).error == state.error,
{
}

/// A password is with PAM from the start of an attempt until its answer, a report or the Renderer's
/// end; a request changes nothing about it.
pub proof fn a_password_is_with_pam_until_an_answer(state: LockView, event: LockEvent)
    ensures
        next(state, event).authenticating == (if event is AuthenticationStarted {
            true
        } else if event is LockRequested {
            state.authenticating
        } else {
            false
        }),
{
}

/// A lock is asked for from its request until a report or the Renderer's end.
pub proof fn a_lock_is_asked_for_until_a_report(state: LockView, event: LockEvent)
    ensures
        next(state, event).requested == (if event is LockRequested {
            true
        } else if event is Reported || event is RendererLost {
            false
        } else {
            state.requested
        }),
{
}

/// Each PAM answer has its own line, and a correct password none.
pub proof fn an_answer_has_its_own_line(err: String)
    ensures
        error_text(PamOutcome::Success).len() == 0,
        error_text(PamOutcome::AuthFailed) == "authentication failed"@,
        error_text(PamOutcome::MaxTries) == "too many attempts"@,
        error_text(PamOutcome::StartFailed(err)) == "authentication is unavailable; a terminal login can repair it. "@
            + err@,
        error_text(PamOutcome::PamError(err)) == "authentication error: "@ + err@,
{
}

/// At first nothing is locked, asked for or counted, and no password is taken.
pub proof fn nothing_is_locked_at_first(acquisition: nat)
    ensures
        !unlocked().active && !unlocked().requested && !unlocked().authenticating && !unlocked().unlocking,
        unlocked().attempts == 0 && unlocked().acquisition == 0 && unlocked().error.len() == 0,
        !admits_password(unlocked()),
        !accepts(unlocked(), acquisition),
        !still_releases(unlocked(), acquisition),
{
}

/// A password is taken exactly while a lock is held and none is with PAM; an answer counts for the
/// lock it was asked for while that is held; a release applies to the lock it was scheduled for while
/// that is being unlocked.
pub proof fn a_lock_is_told_by_its_number(state: LockView, acquisition: nat)
    ensures
        admits_password(state) <==> state.active && !state.authenticating,
        accepts(state, acquisition) <==> state.active && state.acquisition == acquisition,
        still_releases(state, acquisition) <==> state.unlocking && state.acquisition == acquisition,
{
}

/// One event's room is all that a step asks for: the count of a wrong password, the number of a lock.
pub proof fn room_is_asked_for_what_is_counted(state: LockView, event: LockEvent)
    ensures
        state.attempts < u32::MAX && state.acquisition < u64::MAX ==> room_for(state, event),
        event != LockEvent::Authenticated(PamOutcome::AuthFailed) && event != LockEvent::Authenticated(
            PamOutcome::MaxTries,
        ) && event != LockEvent::Reported(LockOutcome::Locked) ==> room_for(state, event),
{
}

} // verus!
