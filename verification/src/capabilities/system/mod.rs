//! `mantle.system` provides reactive wall-clock time.

use vstd::prelude::*;

use controller::{SystemConfigure, SystemController};

pub mod controller;

verus! {

#[derive(Debug)]
pub enum SystemAction {
    /// Sets the push interval, `1` second until this. Each push lands on a wall-clock multiple of
    /// it, and one lands at once.
    Configure { settings: SystemConfigure },
}

/// Applies an action; whether the clock's interval was set, which pushes at once.
pub fn dispatch(controller: &mut SystemController, action: SystemAction) -> (set: bool)
    ensures
        match action {
            SystemAction::Configure { settings } => set == (settings.interval is Some) && final(controller).spec_interval() == controller::configured(old(controller).spec_interval(), settings) && final(controller).spec_state() == old(controller).spec_state(),
        },
{
    match action {
        SystemAction::Configure { settings } => controller.configure(settings),
    }
}

} // verus!
