//! The lock controller: what it sends, when, and for which lock.

use vstd::prelude::*;

use super::state::{accepts_outcome, apply, may_authenticate, releases, LockEvent, LockState, PamOutcome};

verus! {

/// The order to the Renderer to take or release the lock.
#[derive(Debug, Clone, Copy, PartialEq, Eq, Structural)]
pub struct SetSessionLock {
    pub locked: bool,
}

/// The longest a lock may stay up after a correct password, in milliseconds.
///
/// A ceiling and not a preference: this window is time the user has authenticated and is still
/// looking at a lock screen.
pub const MAX_UNLOCK_ANIMATION: u64 = 600;

/// Every action `mantle.lock:invoke(...)` accepts. There is no `unlock`: a lock screen's button
/// callback would make it a one-click path past PAM.
#[derive(Debug, Clone, Copy, PartialEq, Eq, Structural)]
pub enum LockAction {
    /// Locks the session.
    Lock,
    /// Holds the lock open after PAM says yes, for an animation out. No `ms` is no animation.
    SetUnlockAnimation { ms: Option<u64> },
}

/// When the lock that a password answered is released.
#[derive(Debug, Clone, Copy, PartialEq, Eq, Structural)]
pub enum Release {
    Now(SetSessionLock),
    /// After this many milliseconds, if [`LockController::release_due`] still grants it for the
    /// acquisition.
    After { ms: u64, acquisition: u64 },
}

/// Owns [`LockState`] and decides which commands go out.
#[derive(Debug)]
pub struct LockController {
    state: LockState,
    unlock_animation_ms: u64,
}

impl LockController {
    pub closed spec fn state(self) -> LockState {
        self.state
    }

    /// The configured window, never above the ceiling.
    pub closed spec fn window(self) -> u64 {
        self.unlock_animation_ms
    }

    pub open spec fn wf(self) -> bool {
        self.window() <= MAX_UNLOCK_ANIMATION
    }

    pub fn new() -> (controller: Self)
        ensures
            controller.wf(),
            controller.state()@ == super::state::unlocked(),
            controller.window() == 0,
    {
        LockController { state: LockState::default(), unlock_animation_ms: 0 }
    }

    /// Asks for the lock, unless one is already held: the Renderer answers such a request with no
    /// report, so recording it would leave it pending for ever.
    pub fn lock(&mut self) -> (command: Option<SetSessionLock>)
        ensures
            final(self).window() == old(self).window(),
            old(self).state().active ==> command is None && final(self).state() == old(self).state(),
            !old(self).state().active ==> command == Some(SetSessionLock { locked: true }) && final(self).state()@
                == super::state::next(old(self).state()@, LockEvent::LockRequested),
    {
        if self.state.active {
            return None;
        }
        apply(&mut self.state, LockEvent::LockRequested);
        Some(SetSessionLock { locked: true })
    }

    /// Orders the unlock. Records no event: the Renderer's `Unlocked` clears `active`.
    pub fn unlock(&self) -> (command: SetSessionLock)
        ensures
            command == (SetSessionLock { locked: false }),
    {
        SetSessionLock { locked: false }
    }

    /// Records how long a lock stays up after a correct password, clamped to
    /// [`MAX_UNLOCK_ANIMATION`].
    pub fn set_unlock_animation(&mut self, window_ms: u64)
        ensures
            final(self).wf(),
            final(self).state() == old(self).state(),
            final(self).window() == (if window_ms < MAX_UNLOCK_ANIMATION {
                window_ms
            } else {
                MAX_UNLOCK_ANIMATION
            }),
    {
        self.unlock_animation_ms = if window_ms < MAX_UNLOCK_ANIMATION {
            window_ms
        } else {
            MAX_UNLOCK_ANIMATION
        };
    }

    /// What [`LockController::set_unlock_animation`] last accepted, in milliseconds.
    pub fn unlock_animation(&self) -> (ms: u64)
        ensures
            ms == self.window(),
    {
        self.unlock_animation_ms
    }

    /// Releases the lock the password answered, after the configured window if there is one. A
    /// delayed release names its acquisition: a lock can end and another begin while the timer
    /// sleeps.
    pub fn unlock_after_animation(&self) -> (release: Release)
        ensures
            self.window() == 0 ==> release == Release::Now(SetSessionLock { locked: false }),
            self.window() != 0 ==> release == (Release::After {
                ms: self.window(),
                acquisition: self.state().acquisition,
            }),
    {
        if self.unlock_animation_ms == 0 {
            Release::Now(self.unlock())
        } else {
            Release::After { ms: self.unlock_animation_ms, acquisition: self.state.acquisition }
        }
    }

    /// The unlock for a delayed release, when the lock it was authorized for is still the one to
    /// release.
    pub fn release_due(&self, acquisition: u64) -> (command: Option<SetSessionLock>)
        ensures
            command == (if super::state::still_releases(self.state()@, acquisition as nat) {
                Some(SetSessionLock { locked: false })
            } else {
                None
            }),
    {
        if releases(&self.state, acquisition) {
            Some(self.unlock())
        } else {
            None
        }
    }

    pub fn record(&mut self, event: LockEvent)
        requires
            super::state::room_for(old(self).state()@, event),
        ensures
            final(self).window() == old(self).window(),
            final(self).state()@ == super::state::next(old(self).state()@, event),
    {
        apply(&mut self.state, event);
    }

    pub fn snapshot(&self) -> (state: LockState)
        ensures
            state == self.state(),
    {
        self.state.clone()
    }

    /// Admits and marks one PAM conversation, or refuses. The number is the acquisition for
    /// [`Self::record_authentication`].
    pub fn try_begin_authentication(&mut self) -> (acquisition: Option<u64>)
        ensures
            final(self).window() == old(self).window(),
            super::state::admits_password(old(self).state()@) ==> acquisition == Some(
                old(self).state().acquisition,
            ) && final(self).state()@ == super::state::next(
                old(self).state()@,
                LockEvent::AuthenticationStarted,
            ),
            !super::state::admits_password(old(self).state()@) ==> acquisition is None && final(self).state()
                == old(self).state(),
    {
        if !may_authenticate(&self.state) {
            return None;
        }
        apply(&mut self.state, LockEvent::AuthenticationStarted);
        Some(self.state.acquisition)
    }

    /// Applies a PAM answer to its acquisition or refuses it.
    pub fn record_authentication(&mut self, acquisition: u64, outcome: PamOutcome) -> (accepted: bool)
        requires
            super::state::room_for(old(self).state()@, LockEvent::Authenticated(outcome)),
        ensures
            final(self).window() == old(self).window(),
            accepted == super::state::accepts(old(self).state()@, acquisition as nat),
            accepted ==> final(self).state()@ == super::state::next(
                old(self).state()@,
                LockEvent::Authenticated(outcome),
            ),
            !accepted ==> final(self).state() == old(self).state(),
    {
        if !accepts_outcome(&self.state, acquisition) {
            return false;
        }
        apply(&mut self.state, LockEvent::Authenticated(outcome));
        true
    }
}

/// Routes an action. No action unlocks.
pub fn dispatch(controller: &mut LockController, action: LockAction) -> (command: Option<SetSessionLock>)
    ensures
        command matches Some(sent) ==> sent.locked,
        match action {
            LockAction::Lock => {
                &&& final(controller).window() == old(controller).window()
                &&& old(controller).state().active ==> command is None && final(controller).state() == old(controller).state()
                &&& !old(controller).state().active ==> command is Some && final(controller).state()@
                    == super::state::next(old(controller).state()@, LockEvent::LockRequested)
            },
            LockAction::SetUnlockAnimation { ms } => {
                let asked = match ms {
                    Some(ms) => ms,
                    None => 0,
                };
                &&& command is None
                &&& final(controller).state() == old(controller).state()
                &&& final(controller).window() == (if asked < MAX_UNLOCK_ANIMATION {
                    asked
                } else {
                    MAX_UNLOCK_ANIMATION
                })
            },
        },
{
    match action {
        LockAction::Lock => controller.lock(),
        LockAction::SetUnlockAnimation { ms } => {
            let asked: u64 = match ms {
                Some(ms) => ms,
                None => 0,
            };
            controller.set_unlock_animation(asked);
            None
        },
    }
}

// ---- laws ----

/// An admitted attempt shuts the door on the next until it is answered.
pub proof fn one_attempt_at_a_time(state: super::state::LockView)
    requires
        super::state::admits_password(state),
    ensures
        !super::state::admits_password(super::state::next(state, LockEvent::AuthenticationStarted)),
        forall|outcome: PamOutcome|
            super::state::admits_password(
                #[trigger] super::state::next(
                    super::state::next(state, LockEvent::AuthenticationStarted),
                    LockEvent::Authenticated(outcome),
                ),
            ),
{
}

} // verus!
