//! The clock that turns the time between two frames into fixed ticks.

use vstd::prelude::*;
use vstd::arithmetic::div_mod::lemma_fundamental_div_mod;
use vstd::arithmetic::div_mod::lemma_fundamental_div_mod_converse;
use vstd::arithmetic::div_mod::lemma_mod_bound;
use crate::gravity::FIXED_TIME_DELTA;

verus! {

/// Gathers the time that frames take and hands it out in whole ticks. What
/// is left over is always shorter than a tick.
pub struct SimulationClock {
    accumulated: u64,
}

impl View for SimulationClock {
    type V = int;

    /// The time since the last tick that was handed out.
    closed spec fn view(&self) -> int {
        self.accumulated as int
    }
}

impl SimulationClock {
    #[verifier::type_invariant]
    spec fn short_of_a_tick(self) -> bool {
        self.accumulated < FIXED_TIME_DELTA
    }

    /// A clock at the moment of a tick.
    pub fn new() -> (clock: SimulationClock)
        ensures
            clock@ == 0,
    {
        SimulationClock { accumulated: 0 }
    }

    /// The time since the last tick, for the interpolator.
    pub fn elapsed(&self) -> (t: u64)
        ensures
            t == self@,
            t < FIXED_TIME_DELTA,
    {
        proof {
            use_type_invariant(self);
        }
        self.accumulated
    }

    /// Takes in the time that a frame took and returns the number of ticks
    /// that are due: none, one or several.
    pub fn advance(&mut self, delta: u64) -> (ticks: u64)
        ensures
            ticks == (old(self)@ + delta) / (FIXED_TIME_DELTA as int),
            final(self)@ == (old(self)@ + delta) % (FIXED_TIME_DELTA as int),
    {
        proof {
            use_type_invariant(&*self);
        }
        let whole: u64 = delta / FIXED_TIME_DELTA;
        let rest: u64 = delta % FIXED_TIME_DELTA;
        let sum: u64 = self.accumulated + rest;
        proof {
            let t = FIXED_TIME_DELTA as int;
            lemma_fundamental_div_mod(delta as int, t);
            lemma_mod_bound(delta as int, t);
            if sum >= FIXED_TIME_DELTA {
                assert((whole + 1) * t + (sum - t) == whole * t + sum) by (nonlinear_arith);
                assert(t * whole == whole * t) by (nonlinear_arith);
                lemma_fundamental_div_mod_converse(
                    self.accumulated + delta,
                    t,
                    whole + 1,
                    sum - t,
                );
            } else {
                assert(t * whole == whole * t) by (nonlinear_arith);
                lemma_fundamental_div_mod_converse(
                    self.accumulated + delta,
                    t,
                    whole as int,
                    sum as int,
                );
            }
        }
        if sum >= FIXED_TIME_DELTA {
            self.accumulated = sum - FIXED_TIME_DELTA;
            whole + 1
        } else {
            self.accumulated = sum;
            whole
        }
    }
}

} // verus!
