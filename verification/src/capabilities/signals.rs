//! What the capabilities send to the supervisor's loop.

use vstd::prelude::*;

use super::bluetooth::BluetoothState;
use super::idle::state::IdleState;
use super::keyboard::KeyboardState;
use super::network::NetworkState;
use super::Capability;

verus! {

/// The mixer's payload, as the mixer serialized it.
#[derive(Debug, Clone, PartialEq, Eq)]
pub struct AudioState {
    pub payload: String,
}

/// A received signal waiting for `Capabilities::push`.
#[derive(Debug)]
pub enum Signal {
    /// Carries mixer state directly, not a controller name.
    Audio(AudioState),
    /// Worker capabilities send finished state, like `Audio`.
    Network(NetworkState),
    Bluetooth(BluetoothState),
    Tray,
    Mpris,
    Notifications,
    Sysinfo,
    Keyboard(KeyboardState),
    Battery,
    Brightness,
    Workspaces,
    Windows,
    Power,
    Applications,
    Files,
    Storage,
    Processes,
    System,
    Privacy,
    Updates,
    /// Carries inhibitor state directly; no controller reads it back.
    Idle(IdleState),
}

impl Signal {
    /// The capability whose state changed.
    pub open spec fn spec_capability(self) -> Capability {
        match self {
            Signal::Audio(_) => Capability::Audio,
            Signal::Network(_) => Capability::Network,
            Signal::Bluetooth(_) => Capability::Bluetooth,
            Signal::Tray => Capability::Tray,
            Signal::Mpris => Capability::Mpris,
            Signal::Notifications => Capability::Notifications,
            Signal::Sysinfo => Capability::Sysinfo,
            Signal::Keyboard(_) => Capability::Keyboard,
            Signal::Battery => Capability::Battery,
            Signal::Brightness => Capability::Brightness,
            Signal::Workspaces => Capability::Workspaces,
            Signal::Windows => Capability::Windows,
            Signal::Power => Capability::Power,
            Signal::Applications => Capability::Applications,
            Signal::Files => Capability::Files,
            Signal::Storage => Capability::Storage,
            Signal::Processes => Capability::Processes,
            Signal::System => Capability::System,
            Signal::Privacy => Capability::Privacy,
            Signal::Updates => Capability::Updates,
            Signal::Idle(_) => Capability::Idle,
        }
    }

    /// Whether the signal brings the state to push with it, so that no controller is asked.
    pub open spec fn spec_carries_state(self) -> bool {
        self is Audio || self is Network || self is Bluetooth || self is Keyboard || self is Idle
    }

    pub fn capability(&self) -> (capability: Capability)
        ensures
            capability == self.spec_capability(),
    {
        match self {
            Signal::Audio(_) => Capability::Audio,
            Signal::Network(_) => Capability::Network,
            Signal::Bluetooth(_) => Capability::Bluetooth,
            Signal::Tray => Capability::Tray,
            Signal::Mpris => Capability::Mpris,
            Signal::Notifications => Capability::Notifications,
            Signal::Sysinfo => Capability::Sysinfo,
            Signal::Keyboard(_) => Capability::Keyboard,
            Signal::Battery => Capability::Battery,
            Signal::Brightness => Capability::Brightness,
            Signal::Workspaces => Capability::Workspaces,
            Signal::Windows => Capability::Windows,
            Signal::Power => Capability::Power,
            Signal::Applications => Capability::Applications,
            Signal::Files => Capability::Files,
            Signal::Storage => Capability::Storage,
            Signal::Processes => Capability::Processes,
            Signal::System => Capability::System,
            Signal::Privacy => Capability::Privacy,
            Signal::Updates => Capability::Updates,
            Signal::Idle(_) => Capability::Idle,
        }
    }

    pub fn carries_state(&self) -> (carries: bool)
        ensures
            carries == self.spec_carries_state(),
    {
        matches!(
            self,
            Signal::Audio(_) | Signal::Network(_) | Signal::Bluetooth(_) | Signal::Keyboard(_) | Signal::Idle(_)
        )
    }
}

/// The newest of a channel's values: the one received and whatever else was queued behind it. A
/// burst is one push of the newest state.
pub fn recv_latest<T>(received: T, queued: Vec<T>) -> (latest: T)
    ensures
        latest == (if queued@.len() == 0 {
            received
        } else {
            queued@.last()
        }),
{
    let mut queued = queued;
    match queued.pop() {
        Some(newest) => newest,
        None => received,
    }
}

/// A signal is the capability's whose state it tells of.
pub proof fn a_signal_is_its_capabilitys(signal: Signal)
    ensures
        signal.spec_capability() is Audio <==> signal is Audio,
        signal.spec_capability() is Network <==> signal is Network,
        signal.spec_capability() is Bluetooth <==> signal is Bluetooth,
        signal.spec_capability() is Tray <==> signal is Tray,
        signal.spec_capability() is Mpris <==> signal is Mpris,
        signal.spec_capability() is Notifications <==> signal is Notifications,
        signal.spec_capability() is Sysinfo <==> signal is Sysinfo,
        signal.spec_capability() is Keyboard <==> signal is Keyboard,
        signal.spec_capability() is Battery <==> signal is Battery,
        signal.spec_capability() is Brightness <==> signal is Brightness,
        signal.spec_capability() is Workspaces <==> signal is Workspaces,
        signal.spec_capability() is Windows <==> signal is Windows,
        signal.spec_capability() is Power <==> signal is Power,
        signal.spec_capability() is Applications <==> signal is Applications,
        signal.spec_capability() is Files <==> signal is Files,
        signal.spec_capability() is Storage <==> signal is Storage,
        signal.spec_capability() is Processes <==> signal is Processes,
        signal.spec_capability() is System <==> signal is System,
        signal.spec_capability() is Privacy <==> signal is Privacy,
        signal.spec_capability() is Updates <==> signal is Updates,
        signal.spec_capability() is Idle <==> signal is Idle,
        signal.spec_carries_state() <==> signal is Audio || signal is Network || signal is Bluetooth
            || signal is Keyboard || signal is Idle,
{
}

} // verus!
