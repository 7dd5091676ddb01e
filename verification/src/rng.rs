//! Explicit seeded pseudo-random generator.
//!
//! Randomness is threaded through the force and spawn computations as an
//! explicit value, so a run is reproducible from its seed: every draw is a
//! pure function of the generator state, stated exactly in the contracts.

use vstd::prelude::*;

verus! {

/// Multiplier of the linear congruential step.
pub const LCG_MUL: u64 = 6364136223846793005;

/// Increment of the linear congruential step.
pub const LCG_INC: u64 = 1442695040888963407;

/// The next generator state.
pub open spec fn lcg_next(s: u64) -> u64 {
    s.wrapping_mul(LCG_MUL).wrapping_add(LCG_INC)
}

/// The value drawn below `n` from state `s` (the high bits of the next
/// state, reduced modulo `n`).
pub open spec fn draw_below(s: u64, n: u64) -> u64
    recommends
        n >= 1,
{
    (lcg_next(s) >> 33) % n
}

/// A deterministic seeded generator.
#[derive(Clone, Copy, PartialEq, Eq, Structural, Debug)]
pub struct SimRng {
    pub state: u64,
}

impl SimRng {
    /// A generator starting from the given seed.
    pub fn new(seed: u64) -> (r: SimRng)
        ensures
            r.state == seed,
    {
        SimRng { state: seed }
    }

    /// Advance once and return the new raw state.
    pub fn next_raw(&mut self) -> (r: u64)
        ensures
            final(self).state == lcg_next(old(self).state),
            r == final(self).state,
    {
        self.state = self.state.wrapping_mul(LCG_MUL).wrapping_add(LCG_INC);
        self.state
    }

    /// Draw a value in `[0, n)`.
    pub fn gen_below(&mut self, n: u64) -> (r: u64)
        requires
            n >= 1,
        ensures
            final(self).state == lcg_next(old(self).state),
            r == draw_below(old(self).state, n),
            r < n,
    {
        let s = self.next_raw();
        (s >> 33) % n
    }

    /// Draw a value in `[lo, hi]` (both ends included).
    pub fn gen_range(&mut self, lo: u64, hi: u64) -> (r: u64)
        requires
            lo <= hi,
            hi < u64::MAX,
        ensures
            final(self).state == lcg_next(old(self).state),
            r == lo + draw_below(old(self).state, (hi - lo + 1) as u64),
            lo <= r <= hi,
    {
        let d = self.gen_below(hi - lo + 1);
        lo + d
    }
}

} // verus!
