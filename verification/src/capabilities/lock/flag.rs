//! The one lock fact that outlives the supervisor: a marker file that exists exactly while the
//! compositor is locked.

use vstd::prelude::*;

use super::state::SessionLock;

verus! {

/// The marker at a path. A file suffices for this boolean and survives a kill; the runtime directory
/// bounds its staleness to the last session.
#[derive(Debug, PartialEq, Eq)]
pub struct SessionLockedFlag {
    path: String,
}

/// What to do to the marker file.
#[derive(Debug, Clone, Copy, PartialEq, Eq, Structural)]
pub enum MarkerStep {
    Create,
    /// A file that is already gone is no failure.
    Remove,
    Leave,
}

/// Whether the file exists after a step.
pub open spec fn marker_after(exists: bool, step: MarkerStep) -> bool {
    match step {
        MarkerStep::Create => true,
        MarkerStep::Remove => false,
        MarkerStep::Leave => exists,
    }
}

pub open spec fn marker_step(change: SessionLock) -> MarkerStep {
    match change {
        SessionLock::Taken => MarkerStep::Create,
        SessionLock::Released => MarkerStep::Remove,
        SessionLock::Unchanged => MarkerStep::Leave,
    }
}

impl SessionLockedFlag {
    pub closed spec fn spec_path(self) -> Seq<char> {
        self.path@
    }

    /// Marker at an explicit path.
    pub fn at(path: String) -> (flag: Self)
        ensures
            flag.spec_path() == path@,
    {
        SessionLockedFlag { path }
    }

    pub fn path(&self) -> (path: &str)
        ensures
            path@ == self.spec_path(),
    {
        self.path.as_str()
    }

    /// Whether the compositor was locked at the last write, from whether the file exists. A path
    /// that could not be looked at means "not locked" on purpose; the alternative relocks at every
    /// boot when one file cannot be read.
    pub fn is_set(&self, exists: Option<bool>) -> (locked: bool)
        ensures
            locked == (exists == Some(true)),
    {
        match exists {
            Some(exists) => exists,
            None => false,
        }
    }

    /// Idempotent both ways: repeated `Locked` reports and `Finished` after `Unlocked` are normal.
    pub fn apply(&self, change: SessionLock) -> (step: MarkerStep)
        ensures
            step == marker_step(change),
    {
        match change {
            SessionLock::Taken => MarkerStep::Create,
            SessionLock::Released => MarkerStep::Remove,
            SessionLock::Unchanged => MarkerStep::Leave,
        }
    }
}

/// Applying a change twice is applying it once, and an unchanged verdict touches nothing.
pub proof fn a_change_is_idempotent(exists: bool, change: SessionLock)
    ensures
        marker_after(marker_after(exists, marker_step(change)), marker_step(change)) == marker_after(
            exists,
            marker_step(change),
        ),
        change is Unchanged ==> marker_after(exists, marker_step(change)) == exists,
{
}

/// The marker is there after a lock was taken, gone after it was released, and as it was otherwise.
pub proof fn the_marker_follows_the_lock(exists: bool)
    ensures
        marker_after(exists, marker_step(SessionLock::Taken)),
        !marker_after(exists, marker_step(SessionLock::Released)),
        marker_after(exists, marker_step(SessionLock::Unchanged)) == exists,
        marker_step(SessionLock::Taken) is Create,
        marker_step(SessionLock::Released) is Remove,
        marker_step(SessionLock::Unchanged) is Leave,
{
}

} // verus!
