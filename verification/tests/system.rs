use supervisor::capabilities::system::controller::{
    clock_step, epoch_seconds, next_boundary, time_until_next_second, ClockEvent, ClockStep, SystemConfigure,
    SystemController, SystemSignal,
};
use supervisor::capabilities::system::{dispatch, SystemAction};
use supervisor::time::Elapsed;

fn secs(secs: u64) -> Elapsed {
    Elapsed { secs, nanos: 0 }
}

fn millis(millis: u64) -> Elapsed {
    Elapsed { secs: millis / 1000, nanos: (millis % 1000) as u32 * 1_000_000 }
}

#[test]
fn epoch_seconds_is_pinned_against_a_known_instant() {
    let known = Some(secs(1_700_000_000));
    assert_eq!(epoch_seconds(known), 1_700_000_000, "must be exact -- Lua reads this straight as an integer");
}

#[test]
fn epoch_seconds_is_seconds_not_milliseconds() {
    // Millis "now" would be roughly 1_700_000_000_000, three orders larger.
    let known = Some(secs(1_700_000_000));
    let seconds = epoch_seconds(known);
    assert!((1_000_000_000..2_000_000_000).contains(&seconds), "plausible unix epoch seconds range, got {seconds}");
}

#[test]
fn time_until_next_second_is_the_complement_of_the_subsecond_remainder() {
    assert_eq!(time_until_next_second(millis(300)), millis(700));
    assert_eq!(time_until_next_second(Elapsed { secs: 10, nanos: 999_000_000 }), millis(1));
}

#[test]
fn next_boundary_is_the_next_multiple_of_the_interval_strictly_after_now() {
    assert_eq!(next_boundary(millis(125_300), 60), 180, "a minute tick lands on :00");
    assert_eq!(next_boundary(secs(120), 60), 180, "a tick on the boundary waits a full interval");
    assert_eq!(next_boundary(millis(125_300), 1), 126);
}

#[test]
fn time_until_next_second_is_a_full_second_when_already_on_the_boundary() {
    assert_eq!(time_until_next_second(secs(5)), secs(1));
}

#[test]
fn zero_parks_the_clock_and_a_new_interval_pushes_at_once() {
    let mut controller = SystemController::new(Some(secs(1_700_000_000)));
    assert_eq!(controller.deadline(millis(1_700_000_000_300)), Some(1_700_000_001), "one tick a second by default");

    assert!(controller.configure(SystemConfigure { interval: Some(0) }));
    assert_eq!(clock_step(ClockEvent::Reconfigured), ClockStep::Push, "a reconfigure pushes at once");
    assert_eq!(controller.deadline(secs(1_700_000_000)), None, "0 parks: no tick");

    assert!(dispatch(
        &mut controller,
        SystemAction::Configure { settings: SystemConfigure { interval: Some(60) } }
    ));
    assert_eq!(controller.deadline(secs(1_700_000_000)), Some(1_700_000_040));
    assert!(!controller.configure(SystemConfigure { interval: None }), "no interval, nothing set");
}

#[test]
fn new_seeds_time_synchronously_before_any_tick_fires() {
    // The first tick is a second away; clients in that second must read real epoch, not zero.
    let mut controller = SystemController::new(Some(secs(1_700_000_001)));

    let seeded = controller.snapshot();
    assert!(seeded.time > 1_700_000_000, "seeded from the real clock, not defaulted");
    assert_eq!(seeded.monotonic, 0, "zero is the epoch, not missing data");

    assert_eq!(controller.sampled(Some(secs(1_700_000_002)), millis(1_004)), SystemSignal::Changed);
    assert_eq!((controller.snapshot().time, controller.snapshot().monotonic), (1_700_000_002, 1));
}

#[test]
fn a_clock_before_the_epoch_reads_zero_and_a_broken_timer_ends_the_clock() {
    assert_eq!(epoch_seconds(None), 0);
    assert_eq!(clock_step(ClockEvent::Fired), ClockStep::Push);
    assert_eq!(clock_step(ClockEvent::Spurious), ClockStep::Rearm);
    assert_eq!(clock_step(ClockEvent::Failed), ClockStep::Stop);
    assert_eq!(clock_step(ClockEvent::Gone), ClockStep::Stop);
}

#[test]
fn a_late_wakeup_does_not_move_the_boundaries() {
    let on_time = next_boundary(secs(1_200), 60);
    let late = next_boundary(millis(1_241_700), 60);
    assert_eq!((on_time, late), (1_260, 1_260));
}
