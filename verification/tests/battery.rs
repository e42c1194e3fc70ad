use supervisor::capabilities::battery::controller::{
    from_properties, hold_through_glitch, seconds, BatteryController, BatterySignal, BatteryState, BatteryStatus,
    DeviceProperties,
};

/// Each state is distinct to a user; a `charging` boolean would collapse the middle rows.
#[test]
fn every_upower_state_maps_to_its_own_name() {
    for (reported, expected) in [
        (0, BatteryStatus::Unknown),
        (1, BatteryStatus::Charging),
        (2, BatteryStatus::Discharging),
        (3, BatteryStatus::Empty),
        (4, BatteryStatus::FullyCharged),
        (5, BatteryStatus::PendingCharge),
        (6, BatteryStatus::PendingDischarge),
    ] {
        assert_eq!(BatteryStatus::from_upower(reported), expected, "State = {reported}");
    }
}

/// An unknown future state degrades to `"Unknown"` instead of dropping the payload.
#[test]
fn a_state_number_this_build_does_not_know_reads_as_unknown() {
    assert_eq!(BatteryStatus::from_upower(7), BatteryStatus::Unknown);
    assert_eq!(BatteryStatus::from_upower(u32::MAX), BatteryStatus::Unknown);
}

#[test]
fn a_zero_on_mains_right_after_a_reading_keeps_the_reading() {
    let previous =
        BatteryState { present: true, percent: 70, state: BatteryStatus::PendingCharge, ..Default::default() };
    let glitch = BatteryState { percent: 0, ..previous };
    assert_eq!(hold_through_glitch(previous, glitch).percent, 70);
    let drained = BatteryState { percent: 0, state: BatteryStatus::Discharging, ..previous };
    assert_eq!(hold_through_glitch(previous, drained).percent, 0, "on battery a zero is a zero");
    assert!(!hold_through_glitch(previous, BatteryState::default()).present, "a battery going away is not a glitch");
}

/// `0` means charging or not enough history to estimate on these properties, not a duration.
#[test]
fn an_unestimated_or_negative_duration_is_absent_rather_than_zero() {
    assert_eq!(seconds(0), None);
    assert_eq!(seconds(-1), None);
    assert_eq!(seconds(8040), Some(8040));
}

fn rounded(percentage: f64) -> u8 {
    percentage.clamp(0.0, 100.0).round() as u8
}

fn battery() -> DeviceProperties {
    DeviceProperties {
        kind: Some(2),
        is_present: Some(true),
        percent: Some(rounded(69.8)),
        state: Some(5),
        time_to_empty: Some(0),
        time_to_full: Some(8040),
    }
}

#[test]
fn get_all_reads_a_present_battery_and_ignores_a_non_battery_display_device() {
    assert_eq!(
        from_properties(battery()),
        BatteryState {
            present: true,
            percent: 70,
            state: BatteryStatus::PendingCharge,
            time_to_empty: None,
            time_to_full: Some(8040)
        }
    );
    let mains = DeviceProperties {
        kind: Some(1),
        is_present: Some(true),
        percent: Some(rounded(50.0)),
        state: None,
        time_to_empty: None,
        time_to_full: None,
    };
    assert_eq!(from_properties(mains), BatteryState::default());
}

/// A desktop's non-battery display device yields the default payload, not an error.
#[test]
fn the_default_payload_is_the_no_battery_answer() {
    assert_eq!(
        BatteryState::default(),
        BatteryState {
            present: false,
            percent: 0,
            state: BatteryStatus::Unknown,
            time_to_empty: None,
            time_to_full: None
        }
    );
}

#[test]
fn only_a_changed_reading_is_pushed() {
    let mut controller = BatteryController::new();
    assert_eq!(controller.started(Some(battery())), BatterySignal::Changed);
    assert_eq!(controller.snapshot().percent, 70);
    assert!(!controller.changed(Some(battery())));
    assert!(!controller.changed(Some(DeviceProperties { percent: Some(0), ..battery() })), "a glitch is no news");
    assert!(controller.changed(Some(DeviceProperties { percent: Some(71), ..battery() })));
    assert_eq!(controller.snapshot().percent, 71);
    assert!(controller.changed(None), "a device that stopped answering is no battery");
    assert_eq!(controller.snapshot(), BatteryState::default());
}
