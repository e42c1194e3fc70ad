//! Idle (`mantle.idle`): what holds the session awake, and the thresholds a config waits for.

use vstd::prelude::*;

pub mod controller;
pub mod inhibit;
pub mod state;

verus! {

/// Actions on `mantle.idle`; only its methods and the reload path send these.
#[derive(Debug, PartialEq, Eq)]
pub enum IdleAction {
    /// Only `seconds` crosses the wire; the callbacks stay with the Renderer.
    Register { seconds: u64 },
    /// Sent when the Renderer's last callback at `seconds` is cancelled.
    Cancel { seconds: u64 },
    /// Sent before each evaluation, on the same ordered socket as the registrations that follow.
    ForgetThresholds,
    Inhibit { reason: String },
    ReleaseInhibit,
}

/// How an action reaches the controller.
#[derive(Debug, PartialEq, Eq)]
pub enum IdleCall {
    /// At once: a forget and the registrations behind it keep their order.
    Register { generation: u32, seconds: u64 },
    Cancel { generation: u32, seconds: u64 },
    ForgetThresholds { generation: u32 },
    /// In a task: these wait on logind.
    SpawnInhibit { generation: u32, reason: String },
    SpawnRelease { generation: u32 },
}

/// Routes an action of a generation.
pub fn dispatch(action: IdleAction, generation: u32) -> (call: IdleCall)
    ensures
        call == (match action {
            IdleAction::Register { seconds } => IdleCall::Register { generation, seconds },
            IdleAction::Cancel { seconds } => IdleCall::Cancel { generation, seconds },
            IdleAction::ForgetThresholds => IdleCall::ForgetThresholds { generation },
            IdleAction::Inhibit { reason } => IdleCall::SpawnInhibit { generation, reason },
            IdleAction::ReleaseInhibit => IdleCall::SpawnRelease { generation },
        }),
{
    match action {
        IdleAction::Register { seconds } => IdleCall::Register { generation, seconds },
        IdleAction::Cancel { seconds } => IdleCall::Cancel { generation, seconds },
        IdleAction::ForgetThresholds => IdleCall::ForgetThresholds { generation },
        IdleAction::Inhibit { reason } => IdleCall::SpawnInhibit { generation, reason },
        IdleAction::ReleaseInhibit => IdleCall::SpawnRelease { generation },
    }
}

} // verus!
