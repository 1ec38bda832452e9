//! The step scheduler: Idle until the wall-clock time since the last
//! completed tick strictly exceeds the generation interval, then exactly
//! one tick, then Idle again with the tick time recorded. The interval is
//! deliberately independent of the render cadence: a host may run many
//! render frames per tick, or attempt a tick every frame.

use vstd::prelude::*;

verus! {

/// Whether a tick is due: the time since the last tick strictly exceeds
/// the interval.
pub open spec fn tick_due(last_tick: int, interval: int, now: int) -> bool {
    now - last_tick > interval
}

/// The recorded last-tick time after one poll at `now`.
pub open spec fn sched_step(last_tick: int, interval: int, now: int) -> int {
    if tick_due(last_tick, interval, now) {
        now
    } else {
        last_tick
    }
}

/// The recorded last-tick time after polling at each time in `times`, in
/// order.
pub open spec fn sched_run(last_tick: int, interval: int, times: Seq<int>) -> int
    decreases times.len(),
{
    if times.len() == 0 {
        last_tick
    } else {
        sched_step(sched_run(last_tick, interval, times.drop_last()), interval, times.last())
    }
}

/// How many ticks fire while polling at each time in `times`, in order.
pub open spec fn sched_tick_count(last_tick: int, interval: int, times: Seq<int>) -> int
    decreases times.len(),
{
    if times.len() == 0 {
        0
    } else {
        let prev = sched_run(last_tick, interval, times.drop_last());
        sched_tick_count(last_tick, interval, times.drop_last())
            + if tick_due(prev, interval, times.last()) {
            1int
        } else {
            0int
        }
    }
}

/// The scheduler's state: the fixed generation interval and the time of
/// the last completed tick, both in nanoseconds of the host's monotonic
/// clock. The last-tick time is explicit state, injected at call time.
#[derive(Clone, Copy, Debug, PartialEq, Eq, Structural)]
pub struct Scheduler {
    pub interval: u64,
    pub last_tick: u64,
}

impl Scheduler {
    /// A scheduler that has just ticked at `now`.
    pub fn new(interval: u64, now: u64) -> (s: Scheduler)
        ensures
            s.interval == interval,
            s.last_tick == now,
    {
        Scheduler { interval, last_tick: now }
    }

    /// Whether a tick is due at `now`. The clock is monotonic, so `now`
    /// never precedes the recorded last tick.
    pub fn poll(&self, now: u64) -> (due: bool)
        requires
            self.last_tick <= now,
        ensures
            due == tick_due(self.last_tick as int, self.interval as int, now as int),
    {
        now - self.last_tick > self.interval
    }

    /// One scheduling decision at `now`: fires exactly when the interval
    /// has been strictly exceeded, and then records `now` as the last tick
    /// time; otherwise changes nothing.
    pub fn update(&mut self, now: u64) -> (ticked: bool)
        requires
            old(self).last_tick <= now,
        ensures
            ticked == tick_due(old(self).last_tick as int, old(self).interval as int, now as int),
            final(self).interval == old(self).interval,
            final(self).last_tick
                == sched_step(old(self).last_tick as int, old(self).interval as int, now as int),
            final(self).last_tick <= now,
    {
        if now - self.last_tick > self.interval {
            self.last_tick = now;
            true
        } else {
            false
        }
    }
}

/// As long as every poll happens within the interval of the last tick, no
/// tick fires and the recorded time never moves: polling more often than
/// the interval cannot produce extra ticks.
pub proof fn lemma_no_tick_within_interval(last_tick: int, interval: int, times: Seq<int>)
    requires
        forall|i: int| 0 <= i < times.len() ==> #[trigger] times[i] - last_tick <= interval,
    ensures
        sched_run(last_tick, interval, times) == last_tick,
        sched_tick_count(last_tick, interval, times) == 0,
    decreases times.len(),
{
    if times.len() > 0 {
        assert(forall|i: int|
            0 <= i < times.drop_last().len() ==> #[trigger] times.drop_last()[i] == times[i]);
        lemma_no_tick_within_interval(last_tick, interval, times.drop_last());
        assert(times.last() == times[times.len() - 1]);
    }
}

/// Once a tick has fired at time `t`, every further poll up to and
/// including `t + interval` is idle: at most one tick fires per crossed
/// interval.
pub proof fn lemma_one_tick_per_interval(t: int, interval: int, times: Seq<int>)
    requires
        forall|i: int| 0 <= i < times.len() ==> #[trigger] times[i] <= t + interval,
    ensures
        sched_tick_count(t, interval, times) == 0,
{
    assert(forall|i: int| 0 <= i < times.len() ==> #[trigger] times[i] - t <= interval);
    lemma_no_tick_within_interval(t, interval, times);
}

} // verus!
