//! [`BatteryController`] owns read-only `mantle.battery` telemetry.

use vstd::prelude::*;

verus! {

/// `battery.state`: UPower's device state by name.
#[derive(Debug, Clone, Copy, PartialEq, Eq, Structural)]
pub enum BatteryStatus {
    /// No answer: UPower unreachable, an unknown state number, or a display device that is not a
    /// battery.
    Unknown,
    /// Taking current from an adapter.
    Charging,
    /// Draining.
    Discharging,
    /// Flat.
    Empty,
    /// Charged and holding.
    FullyCharged,
    /// On mains, neither draining nor taking current: a charge limit, weak charger or thermal pause.
    PendingCharge,
    /// Waiting to discharge.
    PendingDischarge,
}

impl Default for BatteryStatus {
    fn default() -> (status: Self)
        ensures
            status == BatteryStatus::Unknown,
    {
        BatteryStatus::Unknown
    }
}

impl BatteryStatus {
    /// UPower's own numbering. An unknown number is no error: a UPower that adds a state must not
    /// fail this capability.
    pub open spec fn numbered(state: u32) -> BatteryStatus {
        if state == 1 {
            BatteryStatus::Charging
        } else if state == 2 {
            BatteryStatus::Discharging
        } else if state == 3 {
            BatteryStatus::Empty
        } else if state == 4 {
            BatteryStatus::FullyCharged
        } else if state == 5 {
            BatteryStatus::PendingCharge
        } else if state == 6 {
            BatteryStatus::PendingDischarge
        } else {
            BatteryStatus::Unknown
        }
    }

    pub fn from_upower(state: u32) -> (status: Self)
        ensures
            status == BatteryStatus::numbered(state),
    {
        match state {
            1 => BatteryStatus::Charging,
            2 => BatteryStatus::Discharging,
            3 => BatteryStatus::Empty,
            4 => BatteryStatus::FullyCharged,
            5 => BatteryStatus::PendingCharge,
            6 => BatteryStatus::PendingDischarge,
            _ => BatteryStatus::Unknown,
        }
    }
}

/// `mantle.battery`'s payload. No battery, or no UPower, reads `present = false` and defaults.
#[derive(Debug, Clone, Copy, PartialEq, Eq, Structural)]
pub struct BatteryState {
    /// UPower's display device is a present battery. Check it before drawing the other fields.
    pub present: bool,
    /// UPower's `Percentage`, rounded to `0` to `100`; a spurious `0` while not draining keeps the
    /// last value.
    pub percent: u8,
    /// What the battery is doing; see [`BatteryStatus`].
    pub state: BatteryStatus,
    /// Seconds until flat, or `None` while UPower has no estimate.
    pub time_to_empty: Option<u32>,
    /// Seconds until full, or `None` while UPower has no estimate.
    pub time_to_full: Option<u32>,
}

pub open spec fn no_battery() -> BatteryState {
    BatteryState {
        present: false,
        percent: 0,
        state: BatteryStatus::Unknown,
        time_to_empty: None,
        time_to_full: None,
    }
}

impl Default for BatteryState {
    fn default() -> (state: Self)
        ensures
            state == no_battery(),
    {
        BatteryState {
            present: false,
            percent: 0,
            state: BatteryStatus::Unknown,
            time_to_empty: None,
            time_to_full: None,
        }
    }
}

#[derive(Debug, Clone, Copy, PartialEq, Eq, Structural)]
pub enum BatterySignal {
    Changed,
}

/// UPower's display device, the composite of every battery. Its documented path is fixed.
pub const DISPLAY_DEVICE: &'static str = "/org/freedesktop/UPower/devices/DisplayDevice";

/// UPower's `Type` value for a battery.
pub const UPOWER_TYPE_BATTERY: u32 = 2;

pub open spec fn positive(reported: i64) -> Option<u32> {
    if 0 < reported <= u32::MAX {
        Some(reported as u32)
    } else {
        None
    }
}

/// A positive duration UPower estimated. `0` means "no answer" on both properties; negatives are
/// not durations.
pub fn seconds(reported: i64) -> (seconds: Option<u32>)
    ensures
        seconds == positive(reported),
{
    if reported > 0 && reported <= 0xffff_ffff {
        Some(reported as u32)
    } else {
        None
    }
}

/// The display device's properties; an absent or mistyped one is `None`.
#[derive(Debug, Clone, Copy, PartialEq, Eq, Structural)]
pub struct DeviceProperties {
    pub kind: Option<u32>,
    pub is_present: Option<bool>,
    /// `Percentage`, rounded to `0` to `100`: 69.8% would otherwise show 69 for the whole minute
    /// before 70.
    pub percent: Option<u8>,
    pub state: Option<u32>,
    pub time_to_empty: Option<i64>,
    pub time_to_full: Option<i64>,
}

pub open spec fn state_of(properties: DeviceProperties) -> BatteryState {
    if properties.kind == Some(UPOWER_TYPE_BATTERY) && properties.is_present == Some(true) {
        BatteryState {
            present: true,
            percent: match properties.percent {
                Some(percent) => percent,
                None => 0,
            },
            state: match properties.state {
                Some(state) => BatteryStatus::numbered(state),
                None => BatteryStatus::Unknown,
            },
            time_to_empty: match properties.time_to_empty {
                Some(reported) => positive(reported),
                None => None,
            },
            time_to_full: match properties.time_to_full {
                Some(reported) => positive(reported),
                None => None,
            },
        }
    } else {
        no_battery()
    }
}

/// The payload of the device's properties. Being present is true of display devices that are no
/// battery, so the type counts with it.
pub fn from_properties(properties: DeviceProperties) -> (state: BatteryState)
    ensures
        state == state_of(properties),
{
    let is_battery = match properties.kind {
        Some(kind) => kind == UPOWER_TYPE_BATTERY,
        None => false,
    };
    let is_present = match properties.is_present {
        Some(is_present) => is_present,
        None => false,
    };
    if !is_battery || !is_present {
        return BatteryState::default();
    }
    let percent: u8 = match properties.percent {
        Some(percent) => percent,
        None => 0,
    };
    BatteryState {
        present: true,
        percent,
        state: match properties.state {
            Some(state) => BatteryStatus::from_upower(state),
            None => BatteryStatus::Unknown,
        },
        time_to_empty: match properties.time_to_empty {
            Some(reported) => seconds(reported),
            None => None,
        },
        time_to_full: match properties.time_to_full {
            Some(reported) => seconds(reported),
            None => None,
        },
    }
}

pub open spec fn draining(state: BatteryState) -> bool {
    state.state == BatteryStatus::Discharging || state.state == BatteryStatus::Empty
}

/// A reading with the last percentage where its own is a spurious zero.
pub open spec fn held(previous: BatteryState, current: BatteryState) -> BatteryState {
    if current.present && !draining(current) && current.percent == 0 && previous.percent > 0 {
        BatteryState { percent: previous.percent, ..current }
    } else {
        current
    }
}

/// UPower can report a spurious zero on mains for one push, which would empty the pill. After a
/// nonzero reading, a zero while not draining keeps it. A zero while draining is a zero.
pub fn hold_through_glitch(previous: BatteryState, current: BatteryState) -> (state: BatteryState)
    ensures
        state == held(previous, current),
{
    let draining = matches!(current.state, BatteryStatus::Discharging | BatteryStatus::Empty);
    if current.present && !draining && current.percent == 0 && previous.percent > 0 {
        BatteryState { percent: previous.percent, ..current }
    } else {
        current
    }
}

#[derive(Debug)]
pub struct BatteryController {
    state: BatteryState,
}

impl BatteryController {
    pub closed spec fn spec_state(self) -> BatteryState {
        self.state
    }

    pub fn new() -> (controller: Self)
        ensures
            controller.spec_state() == no_battery(),
    {
        BatteryController { state: BatteryState::default() }
    }

    pub fn snapshot(&self) -> (state: BatteryState)
        ensures
            state == self.spec_state(),
    {
        self.state
    }

    /// The first reading, which is pushed whatever it says. `None` is a device that did not answer:
    /// a live-looking stale number is worse than zero.
    pub fn started(&mut self, properties: Option<DeviceProperties>) -> (signal: BatterySignal)
        ensures
            signal == BatterySignal::Changed,
            final(self).spec_state() == (match properties {
                Some(properties) => state_of(properties),
                None => no_battery(),
            }),
    {
        self.state = match properties {
            Some(properties) => from_properties(properties),
            None => BatteryState::default(),
        };
        BatterySignal::Changed
    }

    /// A reading after the device changed; whether it is pushed. Every change reads the whole device
    /// again, which keeps the fields consistent.
    pub fn changed(&mut self, properties: Option<DeviceProperties>) -> (push: bool)
        ensures
            final(self).spec_state() == held(
                old(self).spec_state(),
                match properties {
                    Some(properties) => state_of(properties),
                    None => no_battery(),
                },
            ),
            push == (final(self).spec_state() != old(self).spec_state()),
    {
        let current = match properties {
            Some(properties) => from_properties(properties),
            None => BatteryState::default(),
        };
        let next = hold_through_glitch(self.state, current);
        if next == self.state {
            return false;
        }
        self.state = next;
        true
    }
}

/// A glitch never changes anything but the percentage, and never holds a battery that went away.
pub proof fn only_the_percentage_is_held(previous: BatteryState, current: BatteryState)
    ensures
        held(previous, current) == (BatteryState { percent: held(previous, current).percent, ..current }),
        !current.present || draining(current) || current.percent > 0 ==> held(previous, current) == current,
{
}

/// UPower numbers its states from charging on; any other number is unknown.
pub proof fn a_state_has_its_upower_number(state: u32)
    ensures
        BatteryStatus::numbered(state) is Charging <==> state == 1,
        BatteryStatus::numbered(state) is Discharging <==> state == 2,
        BatteryStatus::numbered(state) is Empty <==> state == 3,
        BatteryStatus::numbered(state) is FullyCharged <==> state == 4,
        BatteryStatus::numbered(state) is PendingCharge <==> state == 5,
        BatteryStatus::numbered(state) is PendingDischarge <==> state == 6,
{
}

/// There is a battery exactly where the device is one and says that it is present; without one nothing
/// is told, and with one its percentage, its state and the times that it knows are.
pub proof fn a_battery_tells_what_the_device_tells(properties: DeviceProperties, n: u8, state: u32, time: i64)
    ensures
        state_of(properties).present <==> properties.kind == Some(2u32) && properties.is_present == Some(true),
        !state_of(properties).present ==> state_of(properties).percent == 0 && state_of(properties).state is Unknown
            && state_of(properties).time_to_empty is None && state_of(properties).time_to_full is None,
        state_of(properties).present && properties.percent == Some(n) ==> state_of(properties).percent == n,
        state_of(properties).present && properties.percent is None ==> state_of(properties).percent == 0,
        state_of(properties).present && properties.state == Some(state) ==> state_of(properties).state
            == BatteryStatus::numbered(state),
        state_of(properties).present && properties.state is None ==> state_of(properties).state is Unknown,
        state_of(properties).present && properties.time_to_empty == Some(time) ==> (state_of(properties).time_to_empty
            is Some <==> 0 < time <= u32::MAX) && (state_of(properties).time_to_empty matches Some(seconds)
            ==> seconds == time),
        state_of(properties).present && properties.time_to_full == Some(time) ==> (state_of(properties).time_to_full
            is Some <==> 0 < time <= u32::MAX) && (state_of(properties).time_to_full matches Some(seconds)
            ==> seconds == time),
        properties.time_to_empty is None ==> state_of(properties).time_to_empty is None,
        properties.time_to_full is None ==> state_of(properties).time_to_full is None,
{
}

/// A zero is held off exactly where a battery that was not empty and is not draining says it has
/// nothing left: the last percentage stays. Every other report stands as it is.
pub proof fn only_an_impossible_zero_is_held_off(previous: BatteryState, current: BatteryState)
    ensures
        ({
            let glitch = current.present && current.percent == 0 && previous.percent > 0 && !(current.state
                is Discharging) && !(current.state is Empty);
            &&& held(previous, current).percent == (if glitch {
                previous.percent
            } else {
                current.percent
            })
            &&& held(previous, current).present == current.present
            &&& held(previous, current).state == current.state
            &&& held(previous, current).time_to_empty == current.time_to_empty
            &&& held(previous, current).time_to_full == current.time_to_full
        }),
{
}

} // verus!
