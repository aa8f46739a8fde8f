//! Time on the simulation clock: an accumulator of elapsed nanoseconds that
//! the cadence-gated behaviours compare against their period.

use vstd::prelude::*;

verus! {

/// Elapsed time since the last reset, in nanoseconds.
#[derive(Clone, Copy, Debug, PartialEq, Eq, Structural)]
pub struct Stopwatch {
    pub elapsed: u64,
}

/// `a + b`, stopping at the largest value of the clock.
pub open spec fn add_time(a: u64, b: u64) -> u64 {
    if a + b > u64::MAX {
        u64::MAX
    } else {
        (a + b) as u64
    }
}

impl Stopwatch {
    /// The stopwatch after `delta` more nanoseconds.
    pub open spec fn ticked(self, delta: u64) -> Stopwatch {
        Stopwatch { elapsed: add_time(self.elapsed, delta) }
    }

    /// Whether a full `period` has gone by since the last reset.
    pub open spec fn reached(self, period: u64) -> bool {
        self.elapsed >= period
    }

    /// The stopwatch of a repeating trigger after `delta` more nanoseconds:
    /// once a period is complete, only the time beyond the last complete
    /// period is kept. A period of zero keeps nothing.
    pub open spec fn lapped(self, delta: u64, period: u64) -> Stopwatch {
        let total = add_time(self.elapsed, delta);
        if period == 0 {
            Stopwatch { elapsed: 0 }
        } else {
            Stopwatch { elapsed: (total % period) as u64 }
        }
    }

    /// Whether a repeating trigger fires on a tick of `delta` nanoseconds: it
    /// does when the tick completes at least one period. However many periods
    /// one tick completes, it fires once.
    pub open spec fn laps(self, delta: u64, period: u64) -> bool {
        add_time(self.elapsed, delta) >= period
    }

    pub fn new() -> (s: Stopwatch)
        ensures
            s.elapsed == 0,
    {
        Stopwatch { elapsed: 0 }
    }

    /// Advances the stopwatch by `delta` nanoseconds.
    pub fn tick(&mut self, delta: u64)
        ensures
            *final(self) == old(self).ticked(delta),
    {
        self.elapsed = self.elapsed.saturating_add(delta);
    }

    pub fn elapsed(&self) -> (e: u64)
        ensures
            e == self.elapsed,
    {
        self.elapsed
    }

    pub fn reset(&mut self)
        ensures
            final(self).elapsed == 0,
    {
        self.elapsed = 0;
    }

    /// Whether a full `period` has gone by since the last reset.
    pub fn finished(&self, period: u64) -> (r: bool)
        ensures
            r == self.reached(period),
    {
        self.elapsed >= period
    }

    /// Advances a repeating trigger by `delta` nanoseconds and says whether it
    /// fires on this tick.
    pub fn tick_repeating(&mut self, delta: u64, period: u64) -> (fired: bool)
        ensures
            fired == old(self).laps(delta, period),
            *final(self) == old(self).lapped(delta, period),
    {
        let total: u64 = self.elapsed.saturating_add(delta);
        if period == 0 {
            self.elapsed = 0;
            true
        } else {
            self.elapsed = total % period;
            total >= period
        }
    }
}

} // verus!
