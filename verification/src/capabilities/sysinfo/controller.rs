//! [`SysinfoController`] runs three configurable polls, for the CPU, memory with swap, and the
//! temperatures, feeding one [`SysinfoState`].

use vstd::prelude::*;

verus! {

/// `mantle.sysinfo`'s payload. Pushed only on a change.
#[derive(Debug, Clone, PartialEq, Eq)]
pub struct SysinfoState {
    /// CPU utilization across all cores, `0` to `100`, rounded down; `0` until two samples form a
    /// delta.
    pub cpu_percent: u8,
    /// Physical memory in use, `0` to `100`, rounded down.
    pub ram_percent: u8,
    /// Swap in use, `0` to `100`, rounded down; also `0` without swap.
    pub swap_percent: u8,
    /// CPU temperatures in whole Celsius; empty without a sensor.
    pub temp_cores: Vec<i64>,
    /// GPU temperature in whole Celsius, or `-1` without a readable one.
    pub temp_gpu: i64,
}

/// What a [`SysinfoState`] says.
#[verifier::ext_equal]
pub struct SysinfoView {
    pub cpu_percent: u8,
    pub ram_percent: u8,
    pub swap_percent: u8,
    pub temp_cores: Seq<i64>,
    pub temp_gpu: i64,
}

impl View for SysinfoState {
    type V = SysinfoView;

    open spec fn view(&self) -> SysinfoView {
        SysinfoView {
            cpu_percent: self.cpu_percent,
            ram_percent: self.ram_percent,
            swap_percent: self.swap_percent,
            temp_cores: self.temp_cores@,
            temp_gpu: self.temp_gpu,
        }
    }
}

/// What is said before the first sample.
pub open spec fn unsampled() -> SysinfoView {
    SysinfoView { cpu_percent: 0, ram_percent: 0, swap_percent: 0, temp_cores: Seq::empty(), temp_gpu: -1i64 }
}

impl Default for SysinfoState {
    fn default() -> (state: Self)
        ensures
            state@ == unsampled(),
    {
        let state = SysinfoState {
            cpu_percent: 0,
            ram_percent: 0,
            swap_percent: 0,
            temp_cores: Vec::new(),
            temp_gpu: -1,
        };
        assert(state@ =~= unsampled());
        state
    }
}

/// Whether a metric ticks or parks with no wakeups, looked at again when its interval changes.
#[derive(Debug, Clone, Copy, PartialEq, Eq, Structural)]
pub enum PollMode {
    /// No timer; only a new interval ends the wait.
    Dormant,
    /// Every so many seconds.
    Ticking(u64),
}

pub fn poll_mode(interval: u64) -> (mode: PollMode)
    ensures
        mode == (if interval == 0 {
            PollMode::Dormant
        } else {
            PollMode::Ticking(interval)
        }),
{
    if interval == 0 {
        PollMode::Dormant
    } else {
        PollMode::Ticking(interval)
    }
}

/// Wakes the supervisor's loop to push a snapshot.
#[derive(Debug, Clone, Copy, PartialEq, Eq, Structural)]
pub enum SysinfoSignal {
    Changed,
}

/// `configure`'s table. Absent keys keep their interval.
#[derive(Debug, Clone, Copy, PartialEq, Eq, Structural)]
pub struct SysinfoConfigure {
    /// Seconds between CPU reads; `0` (the default) stops them.
    pub cpu_interval: Option<u64>,
    /// Seconds between memory and swap reads; `0` (the default) stops them.
    pub ram_interval: Option<u64>,
    /// Seconds between temperature reads; `0` (the default) stops them.
    pub temp_interval: Option<u64>,
}

/// The longest interval, since a longer one overflows the timer's clock.
pub const MAX_INTERVAL: u64 = 0xffff_ffff;

pub open spec fn set_to(current: u64, asked: Option<u64>) -> u64 {
    match asked {
        Some(seconds) => if seconds < MAX_INTERVAL {
            seconds
        } else {
            MAX_INTERVAL
        },
        None => current,
    }
}

fn interval_after(current: u64, asked: Option<u64>) -> (interval: u64)
    ensures
        interval == set_to(current, asked),
{
    match asked {
        Some(seconds) => if seconds < MAX_INTERVAL {
            seconds
        } else {
            MAX_INTERVAL
        },
        None => current,
    }
}

/// What one poll measured.
#[derive(Debug, PartialEq, Eq)]
pub enum Sample {
    Cpu { percent: u8 },
    Ram { ram_percent: u8, swap_percent: u8 },
    Temp { temp_cores: Vec<i64>, temp_gpu: i64 },
}

pub open spec fn with_sample(state: SysinfoView, sample: Sample) -> SysinfoView {
    match sample {
        Sample::Cpu { percent } => SysinfoView { cpu_percent: percent, ..state },
        Sample::Ram { ram_percent, swap_percent } => SysinfoView { ram_percent, swap_percent, ..state },
        Sample::Temp { temp_cores, temp_gpu } => SysinfoView { temp_cores: temp_cores@, temp_gpu, ..state },
    }
}

fn same_cores(a: &Vec<i64>, b: &Vec<i64>) -> (same: bool)
    ensures
        same == (a@ == b@),
{
    if a.len() != b.len() {
        return false;
    }
    let mut i: usize = 0;
    while i < a.len()
        invariant
            i <= a@.len(),
            a@.len() == b@.len(),
            forall|j: int| 0 <= j < i ==> a@[j] == b@[j],
        decreases a@.len() - i,
    {
        if a[i] != b[i] {
            return false;
        }
        i += 1;
    }
    assert(a@ =~= b@);
    true
}

/// Writes one poll's fields; whether that changed something, and so is published. Every push costs a
/// re-resolve of the scene, and a machine at rest measures the same for minutes.
pub fn publish_if_changed(state: &mut SysinfoState, sample: Sample) -> (changed: bool)
    ensures
        final(state)@ == with_sample(old(state)@, sample),
        changed == (final(state)@ != old(state)@),
{
    match sample {
        Sample::Cpu { percent } => {
            let changed = state.cpu_percent != percent;
            state.cpu_percent = percent;
            changed
        },
        Sample::Ram { ram_percent, swap_percent } => {
            let changed = state.ram_percent != ram_percent || state.swap_percent != swap_percent;
            state.ram_percent = ram_percent;
            state.swap_percent = swap_percent;
            changed
        },
        Sample::Temp { temp_cores, temp_gpu } => {
            let changed = !same_cores(&state.temp_cores, &temp_cores) || state.temp_gpu != temp_gpu;
            state.temp_cores = temp_cores;
            state.temp_gpu = temp_gpu;
            changed
        },
    }
}

/// What ends a metric's wait.
#[derive(Debug, Clone, Copy, PartialEq, Eq, Structural)]
pub enum TickerEvent {
    Ticked,
    Reconfigured,
    /// Nothing can reconfigure the poll any more.
    Gone,
}

/// What a metric's poll does next.
#[derive(Debug, Clone, Copy, PartialEq, Eq, Structural)]
pub enum TickerStep {
    Sample,
    /// Take the mode anew.
    Replan,
    Stop,
}

pub fn ticker_step(event: TickerEvent) -> (step: TickerStep)
    ensures
        step == (match event {
            TickerEvent::Ticked => TickerStep::Sample,
            TickerEvent::Reconfigured => TickerStep::Replan,
            TickerEvent::Gone => TickerStep::Stop,
        }),
{
    match event {
        TickerEvent::Ticked => TickerStep::Sample,
        TickerEvent::Reconfigured => TickerStep::Replan,
        TickerEvent::Gone => TickerStep::Stop,
    }
}

/// One metric's poll: parked while its interval is zero, otherwise a sample per interval. The first
/// sample of a spell has nothing to be compared with: counters that run since boot would give a
/// delta across the time nobody looked.
#[derive(Debug)]
pub struct Ticker<T> {
    previous: Option<T>,
}

impl<T> Ticker<T> {
    pub closed spec fn spec_previous(self) -> Option<T> {
        self.previous
    }

    pub fn new() -> (ticker: Self)
        ensures
            ticker.spec_previous() is None,
    {
        Ticker { previous: None }
    }

    /// Takes the mode anew. Going dormant forgets the last sample.
    pub fn plan(&mut self, interval: u64) -> (mode: PollMode)
        ensures
            mode == (if interval == 0 {
                PollMode::Dormant
            } else {
                PollMode::Ticking(interval)
            }),
            final(self).spec_previous() == (if interval == 0 {
                None
            } else {
                old(self).spec_previous()
            }),
    {
        if interval == 0 {
            self.previous = None;
        }
        poll_mode(interval)
    }

    /// Keeps a sample; the one before it, where there is one to compare it with.
    pub fn sampled(&mut self, sample: T) -> (previous: Option<T>)
        ensures
            previous == old(self).spec_previous(),
            final(self).spec_previous() == Some(sample),
    {
        let previous = self.previous.take();
        self.previous = Some(sample);
        previous
    }
}

/// The state and the intervals of the three polls.
#[derive(Debug)]
pub struct SysinfoController {
    state: SysinfoState,
    cpu_interval: u64,
    ram_interval: u64,
    temp_interval: u64,
}

impl SysinfoController {
    pub closed spec fn spec_state(self) -> SysinfoView {
        self.state@
    }

    /// Seconds between reads of the CPU, memory and temperatures; `0` is dormant.
    pub closed spec fn spec_intervals(self) -> (u64, u64, u64) {
        (self.cpu_interval, self.ram_interval, self.temp_interval)
    }

    /// All three dormant until `configure`.
    pub fn new() -> (controller: Self)
        ensures
            controller.spec_state() == unsampled(),
            controller.spec_intervals() == (0u64, 0u64, 0u64),
    {
        SysinfoController { state: SysinfoState::default(), cpu_interval: 0, ram_interval: 0, temp_interval: 0 }
    }

    /// Applies `configure`: present intervals wake, retime or suspend their poll; absent ones stay.
    pub fn configure(&mut self, cfg: SysinfoConfigure)
        ensures
            final(self).spec_state() == old(self).spec_state(),
            final(self).spec_intervals() == (
                set_to(old(self).spec_intervals().0, cfg.cpu_interval),
                set_to(old(self).spec_intervals().1, cfg.ram_interval),
                set_to(old(self).spec_intervals().2, cfg.temp_interval),
            ),
    {
        self.cpu_interval = interval_after(self.cpu_interval, cfg.cpu_interval);
        self.ram_interval = interval_after(self.ram_interval, cfg.ram_interval);
        self.temp_interval = interval_after(self.temp_interval, cfg.temp_interval);
    }

    pub fn intervals(&self) -> (intervals: (u64, u64, u64))
        ensures
            intervals == self.spec_intervals(),
    {
        (self.cpu_interval, self.ram_interval, self.temp_interval)
    }

    /// Takes a sample; whether it is published.
    pub fn sampled(&mut self, sample: Sample) -> (changed: bool)
        ensures
            final(self).spec_state() == with_sample(old(self).spec_state(), sample),
            changed == (final(self).spec_state() != old(self).spec_state()),
            final(self).spec_intervals() == old(self).spec_intervals(),
    {
        publish_if_changed(&mut self.state, sample)
    }

    /// Current combined state, for a snapshot push.
    pub fn snapshot(&self) -> (state: &SysinfoState)
        ensures
            state@ == self.spec_state(),
    {
        &self.state
    }
}

// ---- laws ----

/// A sample changes what it measured, to what it measured, and nothing else.
pub proof fn a_sample_changes_what_it_measured(state: SysinfoView, sample: Sample)
    ensures
        sample matches Sample::Cpu { percent } ==> with_sample(state, sample).cpu_percent == percent,
        sample matches Sample::Ram { ram_percent, swap_percent } ==> with_sample(state, sample).ram_percent
            == ram_percent && with_sample(state, sample).swap_percent == swap_percent,
        sample matches Sample::Temp { temp_cores, temp_gpu } ==> with_sample(state, sample).temp_cores == temp_cores@
            && with_sample(state, sample).temp_gpu == temp_gpu,
        !(sample is Cpu) ==> with_sample(state, sample).cpu_percent == state.cpu_percent,
        !(sample is Ram) ==> with_sample(state, sample).ram_percent == state.ram_percent && with_sample(
            state,
            sample,
        ).swap_percent == state.swap_percent,
        !(sample is Temp) ==> with_sample(state, sample).temp_cores == state.temp_cores && with_sample(
            state,
            sample,
        ).temp_gpu == state.temp_gpu,
{
}

/// An interval that was asked for is set, up to the longest; one that was not asked for stays.
pub proof fn an_interval_is_set_where_it_was_asked_for(current: u64, seconds: u64)
    ensures
        set_to(current, None) == current,
        seconds <= 0xffff_ffff ==> set_to(current, Some(seconds)) == seconds,
        seconds > 0xffff_ffff ==> set_to(current, Some(seconds)) == 0xffff_ffff,
{
}

/// Before any sample nothing was used and no temperature is known.
pub proof fn nothing_is_known_before_a_sample()
    ensures
        unsampled().cpu_percent == 0,
        unsampled().ram_percent == 0,
        unsampled().swap_percent == 0,
        unsampled().temp_cores.len() == 0,
        unsampled().temp_gpu == -1,
{
}

} // verus!
