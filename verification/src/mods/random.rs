//! Linear-congruential pseudo-random generator.

use vstd::prelude::*;

verus! {

/// Multiplier of the generator.
pub const LCG_MULTIPLIER: u64 = 6364136223846793005;

/// Increment of the generator.
pub const LCG_INCREMENT: u64 = 1442695040888963407;

/// The number of fractions that a draw can give: 2^53.
pub const FRACTION_UNITS: u64 = 0x20_0000_0000_0000;

/// What a state is divided by to give its 53 high bits: 2^11.
pub const FRACTION_DROPPED: u64 = 0x800;

/// The state that follows `state`: `A * state + C` modulo 2^64.
pub open spec fn lcg_step(state: u64) -> u64 {
    ((LCG_MULTIPLIER as int * state as int + LCG_INCREMENT as int) % 0x1_0000_0000_0000_0000) as u64
}

/// Adding `c` with wrap-around to `a`, the residue of `x` modulo 2^64,
/// gives the residue of `x + c`.
pub proof fn lemma_wrapping_sum(x: int, a: u64, c: u64)
    requires
        0 <= x,
        a == x % 0x1_0000_0000_0000_0000,
    ensures
        vstd::wrapping::u64_specs::wrapping_add(a, c) == (x + c) % 0x1_0000_0000_0000_0000,
{
    let r: int = 0x1_0000_0000_0000_0000;
    vstd::arithmetic::div_mod::lemma_fundamental_div_mod(x, r);
    let q = x / r;
    if a + c > u64::MAX {
        vstd::arithmetic::div_mod::lemma_fundamental_div_mod_converse(x + c, r, q + 1, a + c - r);
    } else {
        vstd::arithmetic::div_mod::lemma_fundamental_div_mod_converse(x + c, r, q, a + c);
    }
}

/// A 64-bit linear-congruential generator.
#[derive(Debug, Clone, Copy)]
pub struct LCG {
    state: u64,
}

impl LCG {
    /// The current state of the generator.
    pub closed spec fn state(&self) -> u64 {
        self.state
    }

    /// A generator whose state is `seed`.
    pub fn new(seed: u64) -> (r: Self)
        ensures
            r.state() == seed,
    {
        LCG { state: seed }
    }

    /// Restarts the stream at `seed`.
    pub fn set_seed(&mut self, seed: u64)
        ensures
            final(self).state() == seed,
    {
        self.state = seed;
    }

    /// Advances the generator by one step and returns the new state.
    pub fn next(&mut self) -> (r: u64)
        ensures
            final(self).state() == lcg_step(old(self).state()),
            r == final(self).state(),
    {
        let product: u64 = LCG_MULTIPLIER.wrapping_mul(self.state);
        let next: u64 = product.wrapping_add(LCG_INCREMENT);
        proof {
            lemma_wrapping_sum(
                LCG_MULTIPLIER as int * old(self).state as int,
                product,
                LCG_INCREMENT,
            );
        }
        self.state = next;
        next
    }

    /// Advances the generator by one step and returns the 53 high bits of
    /// the new state: a uniform fraction, counted in units of 2^-53.
    pub fn next_fraction(&mut self) -> (r: u64)
        ensures
            final(self).state() == lcg_step(old(self).state()),
            r == final(self).state() / FRACTION_DROPPED,
            r < FRACTION_UNITS,
    {
        let state = self.next();
        let r: u64 = state >> 11;
        assert(r == state / 0x800 && r < 0x20_0000_0000_0000) by (bit_vector)
            requires
                r == state >> 11,
        ;
        r
    }
}

} // verus!
