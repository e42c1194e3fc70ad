//! NetworkManager (`mantle.network`): its payload and what each action calls.

use vstd::prelude::*;

verus! {

/// One scanned network in `available_networks`.
#[derive(Debug, Clone, PartialEq)]
pub struct AccessPointInfo {
    /// Network name, `""` for hidden networks; one entry per SSID, from its strongest access point.
    pub ssid: String,
    /// Signal strength, `0` to `100`.
    pub strength: u8,
    /// Needs a key: WEP, WPA or RSN.
    pub secure: bool,
    /// `"2.4 GHz"`, `"5 GHz"`, `"6 GHz"`, or empty for a frequency outside those bands.
    pub band: String,
    /// The Wi-Fi device is associated with this SSID.
    pub active: bool,
    /// A saved NetworkManager profile names this SSID, so `connect` asks for no password.
    pub saved: bool,
}

/// A failed join, as `connect_error`.
#[derive(Debug, Clone, PartialEq)]
pub struct JoinError {
    /// The network the join was for.
    pub ssid: String,
    /// Display text, such as `"wrong password"` or `"network not found"`.
    pub message: String,
}

/// `mantle.network`'s payload.
#[derive(Debug, Clone, Default, PartialEq)]
pub struct NetworkState {
    /// A scan is in flight, from the moment `scan` is accepted.
    pub scanning: bool,
    /// A connection carries the default route; `false` means offline.
    pub connected: bool,
    /// `"Ethernet"` when the default route is wired, else the associated SSID, else `nil`.
    pub ssid: Option<String>,
    /// The associated network's `strength`, `0` to `100`; `0` without a Wi-Fi association.
    pub strength: u8,
    /// Wi-Fi radio power; can be `true` with no Wi-Fi hardware, see `wifi_present`.
    pub wifi_enabled: bool,
    /// A Wi-Fi device exists.
    pub wifi_present: bool,
    /// At least one wired device exists, cable or not.
    pub ethernet_present: bool,
    /// NetworkManager networking is on.
    pub networking_enabled: bool,
    /// A wired device is activated; `set_ethernet_enabled`'s read-back, unlike carrier.
    pub ethernet_enabled: bool,
    /// The Wi-Fi device's IPv4 address without prefix, or `nil`.
    pub wifi_ip: Option<String>,
    /// The first activated wired device's IPv4 address without prefix, or `nil`.
    pub ethernet_ip: Option<String>,
    /// That wired device's link speed in Mb/s; `0` when unknown or none is activated.
    pub ethernet_speed: u32,
    /// The SSID `connect` is joining, or `nil`; clears on a verdict or `abort_connect`.
    pub connecting_ssid: Option<String>,
    /// The last failed `connect`, or `nil` before any or after a success.
    pub connect_error: Option<JoinError>,
    /// The SSID whose `connect` waits for a password, or `nil`.
    pub password_ssid: Option<String>,
    /// The visible networks: one per SSID, at most 20, ordered associated, then saved, then
    /// strongest.
    pub available_networks: Vec<AccessPointInfo>,
}

/// A pending `network:connect(ssid, hidden)` intent, held in one slot until a secure field supplies
/// the password.
#[derive(Debug, Clone, PartialEq)]
pub struct PendingNetworkConnect {
    pub ssid: String,
    pub hidden: bool,
}

/// What forwarders report to the network worker.
#[derive(Debug, Clone, Copy, PartialEq, Eq, Structural)]
pub enum NetworkSignal {
    /// Any field but `scanning` changed.
    Changed,
    /// The last scan's time changed, or NetworkManager refused a scan: none is in flight.
    ScanCompleted,
    /// Sent before the scan request is, through the same channel, for its order.
    ScanStarted,
    /// A saved profile was added or removed, so the saved-SSID cache is stale.
    SavedChanged,
    /// NetworkManager added or removed a device, so the device set is stale.
    DevicesChanged,
}

#[derive(Debug, PartialEq, Eq)]
pub enum NetworkAction {
    /// Turns NetworkManager networking on or off.
    SetNetworkingEnabled { enabled: bool },
    /// Powers the Wi-Fi radio.
    SetWifiEnabled { enabled: bool },
    /// `false` disconnects every wired device; `true` activates each one's autoconnect profile.
    SetEthernetEnabled { enabled: bool },
    /// Requests a Wi-Fi scan; a no-op without Wi-Fi hardware.
    Scan,
    /// Joins a network. Without a saved profile, a secured, `hidden` or out-of-range one sets
    /// `password_ssid` and waits for a key.
    Connect { ssid: String, hidden: bool },
    /// Drops the password request `password_ssid` names; a join already running continues.
    CancelConnect,
    /// Stops the join `connecting_ssid` names, deleting a profile the join created.
    AbortConnect,
    /// Deletes every saved profile for this SSID.
    Forget { ssid: String },
    /// Disconnects Wi-Fi; NetworkManager does not autoconnect it again until the next join.
    DisconnectWifi,
}

/// What is done before the dispatch returns.
#[derive(Debug, PartialEq)]
pub enum NetworkNow {
    Nothing,
    /// The scan shows as running before the request completes.
    MarkScanning,
    /// The intent waits in its slot for the password.
    Stash(PendingNetworkConnect),
    CancelConnect,
    AbortConnect,
}

/// What is left to a task, because it waits on NetworkManager.
#[derive(Debug, PartialEq, Eq)]
pub enum NetworkTask {
    Nothing,
    SetNetworkingEnabled(bool),
    SetWifiEnabled(bool),
    SetEthernetEnabled(bool),
    Scan,
    ResolveIntent,
    Forget(String),
    DisconnectWifi,
}

/// Routes an action. Writes go to a task; a cancel touches no bus, and done late it would bring a
/// prompt back.
pub fn dispatch(action: NetworkAction) -> (plan: (NetworkNow, NetworkTask))
    ensures
        match action {
            NetworkAction::SetNetworkingEnabled { enabled } => plan == (
                NetworkNow::Nothing,
                NetworkTask::SetNetworkingEnabled(enabled),
            ),
            NetworkAction::SetWifiEnabled { enabled } => plan == (
                NetworkNow::Nothing,
                NetworkTask::SetWifiEnabled(enabled),
            ),
            NetworkAction::SetEthernetEnabled { enabled } => plan == (
                NetworkNow::Nothing,
                NetworkTask::SetEthernetEnabled(enabled),
            ),
            NetworkAction::Scan => plan == (NetworkNow::MarkScanning, NetworkTask::Scan),
            NetworkAction::Connect { ssid, hidden } => plan == (
                NetworkNow::Stash(PendingNetworkConnect { ssid, hidden }),
                NetworkTask::ResolveIntent,
            ),
            NetworkAction::CancelConnect => plan == (NetworkNow::CancelConnect, NetworkTask::Nothing),
            NetworkAction::AbortConnect => plan == (NetworkNow::AbortConnect, NetworkTask::Nothing),
            NetworkAction::Forget { ssid } => plan == (NetworkNow::Nothing, NetworkTask::Forget(ssid)),
            NetworkAction::DisconnectWifi => plan == (NetworkNow::Nothing, NetworkTask::DisconnectWifi),
        },
{
    match action {
        NetworkAction::SetNetworkingEnabled { enabled } => {
            (NetworkNow::Nothing, NetworkTask::SetNetworkingEnabled(enabled))
        },
        NetworkAction::SetWifiEnabled { enabled } => (NetworkNow::Nothing, NetworkTask::SetWifiEnabled(enabled)),
        NetworkAction::SetEthernetEnabled { enabled } => {
            (NetworkNow::Nothing, NetworkTask::SetEthernetEnabled(enabled))
        },
        NetworkAction::Scan => (NetworkNow::MarkScanning, NetworkTask::Scan),
        NetworkAction::Connect { ssid, hidden } => {
            (NetworkNow::Stash(PendingNetworkConnect { ssid, hidden }), NetworkTask::ResolveIntent)
        },
        NetworkAction::CancelConnect => (NetworkNow::CancelConnect, NetworkTask::Nothing),
        NetworkAction::AbortConnect => (NetworkNow::AbortConnect, NetworkTask::Nothing),
        NetworkAction::Forget { ssid } => (NetworkNow::Nothing, NetworkTask::Forget(ssid)),
        NetworkAction::DisconnectWifi => (NetworkNow::Nothing, NetworkTask::DisconnectWifi),
    }
}

} // verus!
