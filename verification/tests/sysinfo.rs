use supervisor::capabilities::sysinfo::controller::{
    poll_mode, publish_if_changed, ticker_step, PollMode, Sample, SysinfoConfigure, SysinfoController, SysinfoState,
    Ticker, TickerEvent, TickerStep,
};

#[test]
fn poll_mode_is_dormant_at_zero_and_ticking_otherwise() {
    assert_eq!(poll_mode(0), PollMode::Dormant);
    assert_eq!(poll_mode(5), PollMode::Ticking(5));
}

#[test]
fn a_sample_that_moved_a_field_publishes() {
    let mut state = SysinfoState::default();
    assert!(publish_if_changed(&mut state, Sample::Cpu { percent: 42 }));
    assert_eq!(state.cpu_percent, 42);
}

#[test]
fn a_sample_that_measured_the_same_number_publishes_nothing() {
    // The whole point: an idle machine reports the same rounded percentage tick after tick.
    let mut state = SysinfoState::default();
    state.cpu_percent = 7;
    assert!(
        !publish_if_changed(&mut state, Sample::Cpu { percent: 7 }),
        "an unchanged sample must not hydrate a snapshot"
    );
}

#[test]
fn sysinfo_state_default_matches_the_pre_first_sample_sentinels() {
    let state = SysinfoState::default();
    assert_eq!(state.cpu_percent, 0);
    assert_eq!(state.ram_percent, 0);
    assert_eq!(state.swap_percent, 0);
    assert_eq!(state.temp_cores, Vec::<i64>::new());
    assert_eq!(state.temp_gpu, -1, "-1 is the undetected sentinel, not 0");
}

#[test]
fn every_sample_moves_its_own_fields_only() {
    let mut controller = SysinfoController::new();
    assert!(controller.sampled(Sample::Ram { ram_percent: 40, swap_percent: 2 }));
    assert!(!controller.sampled(Sample::Ram { ram_percent: 40, swap_percent: 2 }));
    assert!(controller.sampled(Sample::Temp { temp_cores: vec![51, 52], temp_gpu: 60 }));
    assert_eq!(
        *controller.snapshot(),
        SysinfoState { cpu_percent: 0, ram_percent: 40, swap_percent: 2, temp_cores: vec![51, 52], temp_gpu: 60 }
    );
}

#[test]
fn an_interval_is_clamped_and_an_absent_one_is_zero() {
    let mut controller = SysinfoController::new();
    assert_eq!(controller.intervals(), (0, 0, 0));
    controller.configure(SysinfoConfigure { cpu_interval: Some(2), ram_interval: Some(u64::MAX), temp_interval: None });
    assert_eq!(controller.intervals(), (2, 0xffff_ffff, 0));
}

#[test]
fn a_delta_needs_two_samples_of_one_ticking_run() {
    let mut ticker: Ticker<u64> = Ticker::new();
    assert_eq!(ticker.plan(2), PollMode::Ticking(2));
    assert_eq!(ticker.sampled(10), None);
    assert_eq!(ticker.sampled(12), Some(10));
    assert_eq!(ticker.plan(0), PollMode::Dormant);
    assert_eq!(ticker.plan(1), PollMode::Ticking(1));
    assert_eq!(ticker.sampled(15), None, "an interval spent dormant is no interval to measure over");
    assert_eq!(ticker_step(TickerEvent::Ticked), TickerStep::Sample);
    assert_eq!(ticker_step(TickerEvent::Reconfigured), TickerStep::Replan);
    assert_eq!(ticker_step(TickerEvent::Gone), TickerStep::Stop);
}
