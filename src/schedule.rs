use vstd::arithmetic::div_mod::lemma_fundamental_div_mod_converse;
use vstd::prelude::*;

verus! {

/// Simulation ticks per second, whatever the display rate.
pub const TICK_RATE: u64 = 60;

/// Microseconds in a second.
pub const MICROS_PER_SECOND: u64 = 1_000_000;

/// Decides how many fixed ticks each rendered frame runs.
///
/// Elapsed time is kept in units of `1 / (TICK_RATE * MICROS_PER_SECOND)`
/// seconds, so that a tick is exactly `MICROS_PER_SECOND` units and no time
/// is lost to rounding.
pub struct FixedStep {
    pub accumulated: u64,
}

impl FixedStep {
    /// Less than one tick is ever left over.
    pub open spec fn wf(&self) -> bool {
        self.accumulated < MICROS_PER_SECOND
    }

    pub fn new() -> (r: FixedStep)
        ensures
            r.wf(),
            r.accumulated == 0,
    {
        FixedStep { accumulated: 0 }
    }

    /// Adds a frame of `elapsed_micros` and runs off whole ticks: while a
    /// tick's worth of time is held, one tick is counted and its time taken
    /// away. Returns the number of ticks to run now.
    pub fn advance(&mut self, elapsed_micros: u64) -> (ticks: u64)
        requires
            old(self).wf(),
            old(self).accumulated + elapsed_micros * TICK_RATE <= u64::MAX,
        ensures
            final(self).wf(),
            ticks == (old(self).accumulated + elapsed_micros * TICK_RATE) / MICROS_PER_SECOND as int,
            final(self).accumulated == (old(self).accumulated + elapsed_micros * TICK_RATE) % MICROS_PER_SECOND as int,
    {
        let ghost total: int = self.accumulated + elapsed_micros * TICK_RATE;
        self.accumulated = self.accumulated + elapsed_micros * TICK_RATE;
        let mut ticks: u64 = 0;
        while self.accumulated >= MICROS_PER_SECOND
            invariant
                self.accumulated + ticks * MICROS_PER_SECOND == total,
                total <= u64::MAX,
            decreases self.accumulated,
        {
            self.accumulated = self.accumulated - MICROS_PER_SECOND;
            ticks = ticks + 1;
        }
        proof {
            lemma_fundamental_div_mod_converse(total, MICROS_PER_SECOND as int, ticks as int, self.accumulated as int);
        }
        ticks
    }
}

} // verus!
