//! BlueZ Bluetooth (`mantle.bluetooth`): its payload, what a device's class says, and what each
//! action calls.

use vstd::prelude::*;

verus! {

/// Where `org.bluez.Agent1` is exported, on the connection's unique name.
pub const AGENT_OBJECT_PATH: &'static str = "/org/mantle/Bluez/Agent1";

/// What the shell is doing to a device, as its `busy`.
#[derive(Debug, Clone, Copy, PartialEq, Eq, Structural)]
pub enum DeviceAction {
    Pairing,
    Connecting,
    Disconnecting,
}

/// What a `pairing_request` asks; see `PairingRequest.kind`.
#[derive(Debug, Clone, Copy, PartialEq, Eq, Structural)]
pub enum PairingKind {
    Confirm,
    Authorize,
    Service,
    Display,
}

#[derive(Debug, Clone, Default, PartialEq)]
pub struct ConnectedDevice {
    /// MAC address, e.g. `"00:1A:7D:DA:71:11"`; every `bluetooth` action takes it.
    pub mac: String,
    /// The device's advertised name, or empty.
    pub name: String,
    /// Battery percentage, or `-1` when the device reports none.
    pub battery: i32,
    /// From the class of device: `"keyboard"`, `"mouse"`, `"headphones"`, `"headset"`, `"phone"`,
    /// `"computer"` or `"generic"`.
    pub category: String,
    /// Same as [`DiscoveredDevice::busy`].
    pub busy: Option<DeviceAction>,
}

#[derive(Debug, Clone, Default, PartialEq)]
pub struct PairedDevice {
    /// MAC address, the argument of `connect` and `forget`.
    pub mac: String,
    /// The device's advertised name, or empty.
    pub name: String,
    /// Same set as `ConnectedDevice.category`.
    pub category: String,
    /// BlueZ refuses every connection to or from the device until it is unblocked.
    pub blocked: bool,
    /// Same as [`DiscoveredDevice::busy`].
    pub busy: Option<DeviceAction>,
}

#[derive(Debug, Clone, Default, PartialEq)]
pub struct DiscoveredDevice {
    /// MAC address, the argument of `pair`.
    pub mac: String,
    /// Advertised name, often empty when the device broadcasts only an address.
    pub name: String,
    /// Always `false`.
    pub paired: bool,
    /// BlueZ refuses to pair with or connect to the device until it is unblocked.
    pub blocked: bool,
    /// The action this shell is running on the device, or `nil`; another client's never shows.
    pub busy: Option<DeviceAction>,
}

/// What the pairing agent is asking the user.
#[derive(Debug, Clone, PartialEq)]
pub struct PairingRequest {
    /// `"confirm"`: does the device show `code`? `"authorize"`: may it pair? `"service"`: may a
    /// paired, untrusted device connect? `"display"`: type `code` on the device; nothing to answer.
    pub kind: PairingKind,
    /// The device's MAC address.
    pub mac: String,
    /// The device's advertised name, or empty.
    pub name: String,
    /// Six-digit passkey for `"confirm"`, passkey or PIN for `"display"`, else `nil`.
    pub code: Option<String>,
}

#[derive(Debug, Clone, Default, PartialEq)]
pub struct BluetoothState {
    /// BlueZ has an adapter; `false` without one or without `bluetoothd`.
    pub available: bool,
    /// The adapter is powered.
    pub enabled: bool,
    /// The adapter is scanning, whichever client started it.
    pub discovering: bool,
    /// Other devices can find this adapter. BlueZ turns it off after its own timeout.
    pub discoverable: bool,
    /// Paired, connected devices. Unordered and may reshuffle on any push: sort before drawing.
    pub connected_devices: Vec<ConnectedDevice>,
    /// Paired devices that are not connected. Unordered like `connected_devices`.
    pub paired_devices: Vec<PairedDevice>,
    /// Unpaired devices BlueZ knows, unordered.
    pub discovered_devices: Vec<DiscoveredDevice>,
    /// The pairing question to show, or `nil`. Answer with `answer_pairing`.
    pub pairing_request: Option<PairingRequest>,
}

/// What signal forwarders report to the bluetooth worker.
#[derive(Debug, Clone, Copy, PartialEq, Eq, Structural)]
pub enum BluetoothSignal {
    /// The adapter's own `Powered`, `Discovering` or `Discoverable` property changed.
    AdapterChanged,
    /// A device was added or removed, or one of its properties changed.
    DeviceRegistryChanged,
    /// `bluetooth:start_discovery()` begins: clears `discovered_devices` before the scan answers.
    DiscoveryCleared,
    /// The agent put up or took down a pairing request.
    PairingChanged,
}

/// What a device is drawn as, from its class of device.
#[derive(Debug, Clone, Copy, PartialEq, Eq, Structural)]
pub enum Category {
    Computer,
    Phone,
    Headset,
    Headphones,
    Keyboard,
    Mouse,
    Generic,
}

/// The major device class: bits 8 to 12.
pub open spec fn major_class(class: u32) -> u32 {
    (class >> 8) & 0x1f
}

/// The minor device class: bits 2 to 7.
pub open spec fn minor_class(class: u32) -> u32 {
    (class >> 2) & 0x3f
}

/// A peripheral's keyboard and pointer bits: the top two of the minor class.
pub open spec fn peripheral_class(class: u32) -> u32 {
    (minor_class(class) >> 4) & 0x3
}

pub open spec fn category_of(class: u32) -> Category {
    if major_class(class) == 0x01 {
        Category::Computer
    } else if major_class(class) == 0x02 {
        Category::Phone
    } else if major_class(class) == 0x04 {
        if minor_class(class) == 0x01 || minor_class(class) == 0x02 {
            Category::Headset
        } else if minor_class(class) == 0x06 {
            Category::Headphones
        } else {
            Category::Generic
        }
    } else if major_class(class) == 0x05 {
        if peripheral_class(class) == 1 || peripheral_class(class) == 3 {
            Category::Keyboard
        } else if peripheral_class(class) == 2 {
            Category::Mouse
        } else {
            Category::Generic
        }
    } else {
        Category::Generic
    }
}

pub open spec fn category_name(category: Category) -> Seq<char> {
    match category {
        Category::Computer => "computer"@,
        Category::Phone => "phone"@,
        Category::Headset => "headset"@,
        Category::Headphones => "headphones"@,
        Category::Keyboard => "keyboard"@,
        Category::Mouse => "mouse"@,
        Category::Generic => "generic"@,
    }
}

/// Maps BlueZ's `Class`. Parses its bits instead of trusting `Icon`, which is empty when the class
/// is zero.
pub fn class_to_category(class: u32) -> (category: &'static str)
    ensures
        category@ == category_name(category_of(class)),
{
    let major: u32 = (class >> 8) & 0x1f;
    let minor: u32 = (class >> 2) & 0x3f;
    match major {
        0x01 => "computer",
        0x02 => "phone",
        0x04 => match minor {
            0x01 | 0x02 => "headset",
            0x06 => "headphones",
            _ => "generic",
        },
        0x05 => match (minor >> 4) & 0x3 {
            1 => "keyboard",
            2 => "mouse",
            3 => "keyboard",
            _ => "generic",
        },
        _ => "generic",
    }
}

/// Only the major and minor bits count: the service bits above bit 12 and the two lowest bits
/// change no category.
pub proof fn only_the_major_and_minor_bits_count(class: u32, other: u32)
    requires
        class & 0x1ffc == other & 0x1ffc,
    ensures
        category_of(class) == category_of(other),
{
    assert((class >> 8) & 0x1f == (other >> 8) & 0x1f) by (bit_vector)
        requires
            class & 0x1ffc == other & 0x1ffc,
    ;
    assert((class >> 2) & 0x3f == (other >> 2) & 0x3f) by (bit_vector)
        requires
            class & 0x1ffc == other & 0x1ffc,
    ;
}

#[derive(Debug, PartialEq, Eq)]
pub enum BluetoothAction {
    /// Powers the adapter on or off.
    SetEnabled { enabled: bool },
    /// Makes the adapter findable by other devices, or not.
    SetDiscoverable { discoverable: bool },
    /// Clears `discovered_devices` and scans. The request holds, so a scan starts once the adapter
    /// powers on and pauses while a `pair` runs.
    StartDiscovery,
    /// Stops discovery; `discovered_devices` stays.
    StopDiscovery,
    /// Pairs a discovered device, then trusts and connects it.
    Pair { mac: String },
    /// Trusts and connects a paired device.
    Connect { mac: String },
    /// Disconnects a connected device.
    Disconnect { mac: String },
    /// Removes a device from BlueZ, unpairing it.
    Forget { mac: String },
    /// Accepts or rejects the `pairing_request` for `mac`.
    AnswerPairing { mac: String, accept: bool },
}

/// How an action reaches the controller.
#[derive(Debug, PartialEq, Eq)]
pub enum BluetoothCall {
    /// The action's own call, in a task: it waits on BlueZ.
    Spawned(BluetoothAction),
    /// At once, so a quick start and stop end wanting none: whether to clear the list, and whether
    /// discovery is wanted.
    Discovery { clear: bool, wanted: bool },
    /// At once: a late answer could land on the next prompt.
    Answer { mac: String, accept: bool },
}

/// Routes an action. The discovery intent and a pairing answer are kept in dispatch order; every
/// other action waits on the bus in a task of its own.
pub fn dispatch(action: BluetoothAction) -> (call: BluetoothCall)
    ensures
        call == (match action {
            BluetoothAction::StartDiscovery => BluetoothCall::Discovery { clear: true, wanted: true },
            BluetoothAction::StopDiscovery => BluetoothCall::Discovery { clear: false, wanted: false },
            BluetoothAction::AnswerPairing { mac, accept } => BluetoothCall::Answer { mac, accept },
            other => BluetoothCall::Spawned(other),
        }),
{
    match action {
        BluetoothAction::StartDiscovery => BluetoothCall::Discovery { clear: true, wanted: true },
        BluetoothAction::StopDiscovery => BluetoothCall::Discovery { clear: false, wanted: false },
        BluetoothAction::AnswerPairing { mac, accept } => BluetoothCall::Answer { mac, accept },
        other => BluetoothCall::Spawned(other),
    }
}

/// The category is told by the major class, the device's number divided by 256 within 32, and for what
/// plays or types by the minor class under it.
pub proof fn the_category_is_told_by_the_class(class: u32)
    ensures
        ({
            let major = class / 256 % 32;
            let minor = class / 4 % 64;
            let keys = class / 64 % 4;
            &&& category_of(class) is Computer <==> major == 1
            &&& category_of(class) is Phone <==> major == 2
            &&& category_of(class) is Headset <==> major == 4 && (minor == 1 || minor == 2)
            &&& category_of(class) is Headphones <==> major == 4 && minor == 6
            &&& category_of(class) is Keyboard <==> major == 5 && (keys == 1 || keys == 3)
            &&& category_of(class) is Mouse <==> major == 5 && keys == 2
        }),
{
    assert((class >> 8) & 0x1f == class / 256 % 32) by (bit_vector);
    assert((class >> 2) & 0x3f == class / 4 % 64) by (bit_vector);
    assert((((class >> 2) & 0x3f) >> 4) & 0x3 == class / 64 % 4) by (bit_vector);
}

/// Every category goes by its own name.
pub proof fn a_category_goes_by_its_name()
    ensures
        category_name(Category::Computer) == "computer"@,
        category_name(Category::Phone) == "phone"@,
        category_name(Category::Headset) == "headset"@,
        category_name(Category::Headphones) == "headphones"@,
        category_name(Category::Keyboard) == "keyboard"@,
        category_name(Category::Mouse) == "mouse"@,
        category_name(Category::Generic) == "generic"@,
{
}

} // verus!
