//! The engine's random source: a small deterministic generator, seeded once
//! per process.  Its step function is specified exactly, so every contract
//! downstream can tie outcomes to the drawn values; and every contract in
//! the engine still holds for every value this source can produce.

use vstd::prelude::*;

verus! {

/// The replacement state for a zero seed, since the all-zero state would be
/// a fixed point of the step function.
pub const ZERO_SEED_STATE: u64 = 0x9E3779B97F4A7C15;

/// A xorshift-style pseudo-random generator.
pub struct StdRand {
    state: u64,
}

/// One step of the generator.
pub open spec fn spec_next(s: u64) -> u64 {
    let a = s ^ (s << 13);
    let b = a ^ (a >> 7);
    b ^ (b << 17)
}

/// The generator state after a number of steps.
pub open spec fn rand_after(s: u64, steps: nat) -> u64
    decreases steps,
{
    if steps == 0 {
        s
    } else {
        spec_next(rand_after(s, (steps - 1) as nat))
    }
}

impl StdRand {
    /// The current generator state.
    pub closed spec fn state_spec(&self) -> u64 {
        self.state
    }

    /// Build a generator from a seed.  A zero seed is replaced by a fixed
    /// odd constant.
    pub fn with_seed(seed: u64) -> (r: StdRand)
        ensures
            r.state_spec() == (if seed == 0 {
                ZERO_SEED_STATE
            } else {
                seed
            }),
    {
        let state = if seed == 0 {
            ZERO_SEED_STATE
        } else {
            seed
        };
        StdRand { state }
    }

    /// The next raw value: exactly one step of the generator.
    pub fn next(&mut self) -> (r: u64)
        ensures
            r == spec_next(old(self).state_spec()),
            final(self).state_spec() == spec_next(old(self).state_spec()),
    {
        let mut x = self.state;
        x = x ^ (x << 13u64);
        x = x ^ (x >> 7u64);
        x = x ^ (x << 17u64);
        self.state = x;
        x
    }

    /// The next raw value, truncated to a 32-bit seed for a foreign call.
    pub fn next_u32(&mut self) -> (r: u32)
        ensures
            final(self).state_spec() == spec_next(old(self).state_spec()),
    {
        #[verifier::truncate]
        let r = self.next() as u32;
        r
    }

    /// A value drawn uniformly below the bound: one step of the generator,
    /// reduced modulo the bound.
    pub fn below(&mut self, bound: u64) -> (r: u64)
        requires
            bound > 0,
        ensures
            r == spec_next(old(self).state_spec()) % bound,
            final(self).state_spec() == spec_next(old(self).state_spec()),
            r < bound,
    {
        self.next() % bound
    }
}

} // verus!
