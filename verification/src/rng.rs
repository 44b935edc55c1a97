//! A small seeded pseudo-random generator.
//!
//! Every benchmark trial draws from a generator seeded with a fixed
//! constant, so that a run is exactly reproducible: compression-ratio
//! comparisons must not be confounded by run-to-run randomness.
//! Statistical rigour is a non-goal; reproducibility is the guarantee,
//! and the whole draw sequence is a mathematical function of the seed.

use vstd::prelude::*;

verus! {

/// Multiplier of the linear congruential step.
pub const LCG_MUL: u64 = 6364136223846793005;

/// Increment of the linear congruential step.
pub const LCG_INC: u64 = 1442695040888963407;

/// The fixed seed every benchmark run starts from.
pub const BENCH_SEED: u64 = 42;

/// Probabilities are expressed in parts per million.
pub const PPM_SCALE: u64 = 1000000;

/// One step of the linear congruential recurrence.
pub open spec fn spec_step(s: u64) -> u64 {
    s.wrapping_mul(LCG_MUL).wrapping_add(LCG_INC)
}

/// A deterministic generator: the state after each draw, and hence the
/// whole sequence of draws, is a function of the seed alone.
pub struct SeededRng {
    state: u64,
}

impl SeededRng {
    /// The abstract value of the generator is its current state.
    pub closed spec fn view(&self) -> u64 {
        self.state
    }

    /// A generator starting from an explicit seed.
    pub fn new(seed: u64) -> (r: SeededRng)
        ensures
            r@ == seed,
    {
        SeededRng { state: seed }
    }

    /// The generator every benchmark trial uses.
    pub fn for_benchmark() -> (r: SeededRng)
        ensures
            r@ == BENCH_SEED,
    {
        SeededRng { state: BENCH_SEED }
    }

    /// Draw a raw 64-bit value.
    pub fn next_raw(&mut self) -> (r: u64)
        ensures
            final(self)@ == spec_step(old(self)@),
            r == spec_step(old(self)@),
    {
        self.state = self.state.wrapping_mul(LCG_MUL).wrapping_add(LCG_INC);
        self.state
    }

    /// Draw a value below `bound`.
    pub fn next_below(&mut self, bound: u64) -> (r: u64)
        requires
            bound >= 1,
        ensures
            final(self)@ == spec_step(old(self)@),
            r == spec_step(old(self)@) % bound,
            r < bound,
    {
        let raw = self.next_raw();
        raw % bound
    }

    /// Flip a coin that comes up true with probability `ppm` parts per million.
    pub fn coin(&mut self, ppm: u64) -> (r: bool)
        ensures
            final(self)@ == spec_step(old(self)@),
            r == (spec_step(old(self)@) % PPM_SCALE < ppm),
    {
        let raw = self.next_raw();
        raw % PPM_SCALE < ppm
    }
}

} // verus!
