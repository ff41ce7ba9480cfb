//! Clock abstraction — injectable time source for deterministic replay.
//!
//! No code in the core path reads the system clock directly. All timestamps come from
//! `Clock::now()`. This enables:
//! - Live mode: `WallClock` (real time)
//! - Backtest mode: `SimulatedClock` (controlled by harness)
//! - Replay mode: `SimulatedClock` (driven by journal timestamps)

use crate::time::{Duration, Timestamp, MAX_UTC_MILLIS, MIN_UTC_MILLIS, NANOS_PER_MILLI};
use vstd::prelude::*;

verus! {

/// Time source for the engine. Injected into the sequencer at startup.
pub trait Clock {
    /// Whether the clock may show a time. A clock that stands still shows one time only; of
    /// others, asking twice may give two.
    spec fn may_show(&self, now: Timestamp) -> bool;

    /// Current timestamp. In live mode, this is wall time.
    /// In backtest/replay, this is the simulated time.
    fn now(&self) -> (r: Timestamp)
        ensures
            self.may_show(r),
    ;
}

/// Wall clock — uses real system time. For live and paper trading.
#[derive(Debug, Clone, Copy)]
pub struct WallClock;

impl Clock for WallClock {
    /// Any time from 1970 on.
    open spec fn may_show(&self, now: Timestamp) -> bool {
        now@ >= 0
    }

    fn now(&self) -> Timestamp {
        Timestamp::system_now()
    }
}

/// Simulated clock — time is controlled externally.
///
/// Used in backtest mode (harness advances it) and replay mode (journal timestamps
/// drive advancement). Holds whole milliseconds.
#[derive(Debug)]
pub struct SimulatedClock {
    epoch_millis: i64,
}

/// Whether a simulated clock may be moved from one reading to another: never back.
pub open spec fn runs_on(before: int, after: int) -> bool {
    before <= after
}

impl SimulatedClock {
    #[verifier::type_invariant]
    closed spec fn well_formed(self) -> bool {
        MIN_UTC_MILLIS <= self.epoch_millis <= MAX_UTC_MILLIS
    }

    /// The milliseconds since 1970 at which the clock stands.
    pub closed spec fn millis(&self) -> int {
        self.epoch_millis as int
    }

    /// Create a new simulated clock at the given time.
    pub fn new(start: Timestamp) -> (r: SimulatedClock)
        ensures
            r.millis() == start@ / NANOS_PER_MILLI as int,
    {
        SimulatedClock { epoch_millis: start.timestamp_millis() }
    }

    /// Create a simulated clock at Unix epoch (1970-01-01 00:00:00 UTC).
    pub fn at_epoch() -> (r: SimulatedClock)
        ensures
            r.millis() == 0,
    {
        SimulatedClock { epoch_millis: 0 }
    }

    /// Move the clock to a specific time, which must not be before the current one.
    pub fn set(&mut self, to: Timestamp)
        requires
            to@ / NANOS_PER_MILLI as int >= old(self).millis(),
        ensures
            final(self).millis() == to@ / NANOS_PER_MILLI as int,
            runs_on(old(self).millis(), final(self).millis()),
    {
        self.epoch_millis = to.timestamp_millis();
    }

    /// Advance the clock by a duration, cut to whole milliseconds.
    pub fn advance(&mut self, duration: Duration)
        requires
            old(self).millis() + duration@ / 1_000_000 <= MAX_UTC_MILLIS,
        ensures
            final(self).millis() == old(self).millis() + duration@ / 1_000_000,
            runs_on(old(self).millis(), final(self).millis()),
    {
        proof {
            use_type_invariant(&*self);
        }
        let step: i128 = duration.as_millis() as i128;
        self.epoch_millis = (self.epoch_millis as i128 + step) as i64;
    }

    /// Advance the clock by milliseconds.
    pub fn advance_millis(&mut self, millis: i64)
        requires
            millis >= 0,
            old(self).millis() + millis <= MAX_UTC_MILLIS,
        ensures
            final(self).millis() == old(self).millis() + millis,
            runs_on(old(self).millis(), final(self).millis()),
    {
        proof {
            use_type_invariant(&*self);
        }
        self.epoch_millis = self.epoch_millis + millis;
    }

    /// Raw epoch milliseconds (for diagnostics).
    pub fn epoch_millis(&self) -> (r: i64)
        ensures
            r == self.millis(),
    {
        self.epoch_millis
    }
}

impl Clock for SimulatedClock {
    /// The time at which the clock stands, and no other.
    open spec fn may_show(&self, now: Timestamp) -> bool {
        now@ == self.millis() * NANOS_PER_MILLI
    }

    fn now(&self) -> (r: Timestamp)
        ensures
            r@ == self.millis() * NANOS_PER_MILLI,
    {
        proof {
            use_type_invariant(self);
        }
        Timestamp::from_millis(self.epoch_millis)
    }
}

/// A simulated clock never goes back: whatever calls of `set`, `advance` and
/// `advance_millis` move it, no later reading is before an earlier one.
pub proof fn law_simulated_clock_never_goes_back(readings: Seq<int>, earlier: int, later: int)
    requires
        forall|i: int|
            0 <= i < readings.len() - 1 ==> runs_on(#[trigger] readings[i], readings[i + 1]),
        0 <= earlier <= later < readings.len(),
    ensures
        readings[earlier] <= readings[later],
    decreases later - earlier,
{
    if earlier < later {
        law_simulated_clock_never_goes_back(readings, earlier, later - 1);
        assert(runs_on(readings[later - 1], readings[later - 1 + 1]));
    }
}

} // verus!
