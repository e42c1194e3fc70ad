//! [`SystemController`] feeds `mantle.system` from one task that wakes on wall-clock multiples of
//! its interval, one second until `configure` changes it.

use vstd::prelude::*;

use crate::time::Elapsed;

verus! {

/// `mantle.system`'s payload, pushed on each tick of `interval`.
#[derive(Debug, Clone, Copy, PartialEq, Eq, Structural)]
pub struct SystemState {
    /// Unix epoch seconds.
    pub time: i64,
    /// Seconds since `system` was first used, as of the last push; excludes suspend. Take durations
    /// from it, since a clock step moves `time`.
    pub monotonic: i64,
}

/// Wakes the supervisor's loop for a fresh snapshot.
#[derive(Debug, Clone, Copy, PartialEq, Eq, Structural)]
pub enum SystemSignal {
    Changed,
}

/// `configure`'s table. An absent `interval` keeps the current one.
#[derive(Debug, Clone, Copy, PartialEq, Eq, Structural)]
pub struct SystemConfigure {
    /// Seconds between pushes, each on a multiple of it since the epoch, so `60` lands on every
    /// minute; `1` is the default and `0` stops them.
    pub interval: Option<u64>,
}

/// The longest interval, so that a deadline stays far inside the clock's range.
pub const MAX_INTERVAL: u64 = 0xffff_ffff;

/// The whole seconds of a time since the epoch; zero for one before it.
pub fn epoch_seconds(since_epoch: Option<Elapsed>) -> (seconds: i64)
    ensures
        seconds == (match since_epoch {
            Some(elapsed) => elapsed.secs as i64,
            None => 0,
        }),
{
    match since_epoch {
        Some(elapsed) => #[verifier::truncate]
        (elapsed.secs as i64),
        None => 0,
    }
}

/// The first epoch second after `now` that is a multiple of `interval`.
pub fn next_boundary(now: Elapsed, interval: u64) -> (second: u64)
    requires
        interval > 0,
        now.secs - now.secs % interval + interval <= u64::MAX,
    ensures
        second > now.secs,
        second % interval == 0,
        second - now.secs <= interval,
{
    let whole: u64 = now.secs / interval;
    let past: u64 = now.secs % interval;
    proof {
        vstd::arithmetic::div_mod::lemma_fundamental_div_mod(now.secs as int, interval as int);
        assert((whole + 1) * interval == interval * whole + interval) by (nonlinear_arith);
        vstd::arithmetic::div_mod::lemma_mod_multiples_basic(whole + 1, interval as int);
    }
    assert(now.secs - past + interval == (whole + 1) * interval);
    now.secs - past + interval
}

/// From a time since the epoch to the next whole second.
pub fn time_until_next_second(elapsed_since_epoch: Elapsed) -> (wait: Elapsed)
    requires
        elapsed_since_epoch.wf(),
    ensures
        wait.wf(),
        wait.secs * 1_000_000_000 + wait.nanos == 1_000_000_000 - elapsed_since_epoch.nanos,
{
    if elapsed_since_epoch.nanos == 0 {
        Elapsed { secs: 1, nanos: 0 }
    } else {
        Elapsed { secs: 0, nanos: 1_000_000_000 - elapsed_since_epoch.nanos }
    }
}

/// The interval after a `configure`.
pub open spec fn configured(interval: u64, cfg: SystemConfigure) -> u64 {
    match cfg.interval {
        Some(seconds) => if seconds < MAX_INTERVAL {
            seconds
        } else {
            MAX_INTERVAL
        },
        None => interval,
    }
}

/// What the clock task woke to.
#[derive(Debug, Clone, Copy, PartialEq, Eq, Structural)]
pub enum ClockEvent {
    /// The timer expired, or a clock step cancelled it.
    Fired,
    /// The timer was ready and had nothing to say.
    Spurious,
    /// The timer failed.
    Failed,
    /// The interval was set.
    Reconfigured,
    /// The controller is gone; nothing can reconfigure the task.
    Gone,
}

/// What the clock task does next.
#[derive(Debug, Clone, Copy, PartialEq, Eq, Structural)]
pub enum ClockStep {
    /// Sample the clock, push, and arm again.
    Push,
    /// Arm again.
    Rearm,
    Stop,
}

/// The clock task's next step: expiry, a clock step and a new interval all push.
pub fn clock_step(event: ClockEvent) -> (step: ClockStep)
    ensures
        step == (match event {
            ClockEvent::Fired | ClockEvent::Reconfigured => ClockStep::Push,
            ClockEvent::Spurious => ClockStep::Rearm,
            ClockEvent::Failed | ClockEvent::Gone => ClockStep::Stop,
        }),
{
    match event {
        ClockEvent::Fired => ClockStep::Push,
        ClockEvent::Reconfigured => ClockStep::Push,
        ClockEvent::Spurious => ClockStep::Rearm,
        ClockEvent::Failed => ClockStep::Stop,
        ClockEvent::Gone => ClockStep::Stop,
    }
}

#[derive(Debug)]
pub struct SystemController {
    state: SystemState,
    interval: u64,
}

impl SystemController {
    pub closed spec fn spec_state(self) -> SystemState {
        self.state
    }

    /// Seconds between pushes; `0` parks the clock.
    pub closed spec fn spec_interval(self) -> u64 {
        self.interval
    }

    #[verifier::type_invariant]
    spec fn capped(self) -> bool {
        self.interval <= MAX_INTERVAL
    }

    /// Seeds `time` at once, so an early client sees the current second, not a stale zero.
    pub fn new(since_epoch: Option<Elapsed>) -> (controller: Self)
        ensures
            controller.spec_interval() == 1,
            controller.spec_state().monotonic == 0,
            controller.spec_state().time == (match since_epoch {
                Some(elapsed) => elapsed.secs as i64,
                None => 0,
            }),
    {
        SystemController {
            state: SystemState { time: epoch_seconds(since_epoch), monotonic: 0 },
            interval: 1,
        }
    }

    /// Applies `configure`; whether an interval was set, which takes effect with an immediate push.
    pub fn configure(&mut self, cfg: SystemConfigure) -> (set: bool)
        ensures
            set == (cfg.interval is Some),
            final(self).spec_interval() == configured(old(self).spec_interval(), cfg),
            final(self).spec_state() == old(self).spec_state(),
    {
        match cfg.interval {
            Some(seconds) => {
                self.interval = if seconds < MAX_INTERVAL {
                    seconds
                } else {
                    MAX_INTERVAL
                };
                true
            },
            None => false,
        }
    }

    /// The epoch second to wake at, `None` while parked.
    pub fn deadline(&self, now: Elapsed) -> (second: Option<u64>)
        requires
            now.secs <= i64::MAX,
        ensures
            match second {
                None => self.spec_interval() == 0,
                Some(second) => self.spec_interval() > 0 && second > now.secs && second % self.spec_interval()
                    == 0 && second - now.secs <= self.spec_interval(),
            },
    {
        proof {
            use_type_invariant(self);
        }
        if self.interval == 0 {
            None
        } else {
            Some(next_boundary(now, self.interval))
        }
    }

    /// Takes a reading of the clocks: the time since the epoch, and the time the controller has run.
    pub fn sampled(&mut self, since_epoch: Option<Elapsed>, running: Elapsed) -> (signal: SystemSignal)
        ensures
            final(self).spec_interval() == old(self).spec_interval(),
            final(self).spec_state().monotonic == running.secs as i64,
            final(self).spec_state().time == (match since_epoch {
                Some(elapsed) => elapsed.secs as i64,
                None => 0,
            }),
            signal == SystemSignal::Changed,
    {
        proof {
            use_type_invariant(&*self);
        }
        self.state = SystemState {
            time: epoch_seconds(since_epoch),
            monotonic: #[verifier::truncate]
            (running.secs as i64),
        };
        SystemSignal::Changed
    }

    /// Current state, for a snapshot push.
    pub fn snapshot(&self) -> (state: SystemState)
        ensures
            state == self.spec_state(),
    {
        self.state
    }
}

/// A boundary is the same however late within its interval it is asked for, so a delayed task does
/// not drift off the multiples.
pub proof fn the_boundary_does_not_drift(interval: int, early: int, late: int, first: int, second: int)
    requires
        0 < interval,
        0 <= early <= late < first,
        first % interval == 0,
        first - early <= interval,
        second > late,
        second % interval == 0,
        second - late <= interval,
    ensures
        first == second,
{
    vstd::arithmetic::div_mod::lemma_fundamental_div_mod(first, interval);
    vstd::arithmetic::div_mod::lemma_fundamental_div_mod(second, interval);
    let a = first / interval;
    let b = second / interval;
    assert(a == b) by (nonlinear_arith)
        requires
            0 < interval,
            first == interval * a,
            second == interval * b,
            first - second < interval,
            second - first < interval,
    ;
}

/// An interval that was asked for is set, up to the longest; without one the interval stays.
pub proof fn an_interval_is_set_where_it_was_asked_for(interval: u64, cfg: SystemConfigure)
    ensures
        cfg.interval is None ==> configured(interval, cfg) == interval,
        cfg.interval matches Some(seconds) ==> configured(interval, cfg) == (if seconds <= 0xffff_ffff {
            seconds as int
        } else {
            0xffff_ffff
        }),
{
}

} // verus!
