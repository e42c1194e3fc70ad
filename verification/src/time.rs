//! Time, as counts.

use vstd::prelude::*;

verus! {

/// A span of time: whole seconds and the nanoseconds of the next one.
#[derive(Debug, Clone, Copy, PartialEq, Eq, Structural)]
pub struct Elapsed {
    pub secs: u64,
    pub nanos: u32,
}

impl Elapsed {
    /// The nanoseconds are less than a second's.
    pub open spec fn wf(self) -> bool {
        self.nanos < 1_000_000_000
    }
}

} // verus!
