//! A deterministic, seedable pseudo-random generator.
//!
//! Weight initialization and dropout masks draw from an explicit,
//! injectable generator handle instead of a hidden global source, so
//! training runs are reproducible from a seed. The generator is a
//! 64-bit linear congruential step, specified exactly.

use vstd::prelude::*;

verus! {

/// The multiplier of the congruential step.
pub const RNG_MUL: u64 = 6_364_136_223_846_793_005;

/// The increment of the congruential step.
pub const RNG_INC: u64 = 1_442_695_040_888_963_407;

/// One step of the generator: `state * RNG_MUL + RNG_INC` modulo
/// two to the sixty-fourth.
pub open spec fn next_state_s(s: u64) -> u64 {
    ((s * RNG_MUL + RNG_INC) % 0x1_0000_0000_0000_0000) as u64
}

/// The generator state after `n` steps.
pub open spec fn state_after_s(s: u64, n: nat) -> u64
    decreases n,
{
    if n == 0 {
        s
    } else {
        next_state_s(state_after_s(s, (n - 1) as nat))
    }
}

/// A seedable pseudo-random generator handle.
#[derive(Clone, Copy, Debug, PartialEq, Eq, Structural)]
pub struct Rng {
    pub state: u64,
}

impl Rng {
    /// A generator starting from the given seed.
    pub fn new(seed: u64) -> (r: Rng)
        ensures
            r.state == seed,
    {
        Rng { state: seed }
    }

    /// Draw the next raw 64-bit value, advancing the state by one
    /// step.
    pub fn next_u64(&mut self) -> (r: u64)
        ensures
            final(self).state == next_state_s(old(self).state),
            r == final(self).state,
    {
        let s = self.state;
        proof {
            assert((s as int) * (RNG_MUL as int) + (RNG_INC as int) < 0x1_0000_0000_0000_0000_0000_0000_0000_0000int)
                by (nonlinear_arith)
                requires
                    0 <= s <= 0xffff_ffff_ffff_ffff,
            ;
        }
        let wide: u128 = (s as u128) * (RNG_MUL as u128) + (RNG_INC as u128);
        let nxt: u64 = (wide % 0x1_0000_0000_0000_0000u128) as u64;
        self.state = nxt;
        nxt
    }

    /// Draw a value below the given positive bound, advancing the
    /// state by one step.
    pub fn below(&mut self, m: u64) -> (r: u64)
        requires
            m > 0,
        ensures
            final(self).state == next_state_s(old(self).state),
            r == next_state_s(old(self).state) % m,
            r < m,
    {
        let v = self.next_u64();
        v % m
    }
}

} // verus!
