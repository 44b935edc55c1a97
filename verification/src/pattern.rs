//! The closed set of statistical shapes a synthetic sequence can take.
//!
//! A pattern is immutable: the caller constructs it with its numeric
//! parameters and passes it to the generator.  Probabilities and ratios
//! are carried as integer parts per million, so that every contract is
//! exact integer arithmetic.

use vstd::prelude::*;
use crate::rng::PPM_SCALE;

verus! {

/// A named statistical shape controlling how a synthetic sequence is
/// generated, one variant per shape, with its numeric parameters.
#[derive(Clone, Copy, PartialEq, Eq, Structural, Debug)]
pub enum DataPattern {
    /// Repeated runs: a value drawn below `unique_values`, repeated for a
    /// run length drawn uniformly from `[1, run_length]`, until the
    /// requested size is reached (the final run is truncated to fit).
    Runs { run_length: u32, unique_values: u32 },
    /// Deterministic sawtooth: position `i` holds
    /// `(i % period) * amplitude / period` in integer arithmetic.
    Periodic { period: u32, amplitude: u32 },
    /// Mostly zeros: each position independently holds a small random
    /// value with probability `density_ppm` parts per million, else zero.
    Sparse { density_ppm: u32 },
    /// Position `i` holds `i * step`.
    Monotonic { step: u32 },
    /// A fresh draw from the full value domain at every position.
    Random,
    /// With probability `repetition_ppm` a run of one repeated low-range
    /// value, with run length drawn from `[1, run_length]` (a run length
    /// parameter of at most 1 forces single elements); otherwise one
    /// high-range value.  The two value ranges are disjoint, so repeats
    /// never collide with the high-range values.
    HighRepetition { repetition_ppm: u32, run_length: u32 },
    /// Roughly `size * unique_ratio_ppm` parts per million distinct
    /// values: the distinct values first, padding re-sampled from them,
    /// then a deterministic shuffle.
    LowRepetition { unique_ratio_ppm: u32 },
}

impl DataPattern {
    /// The parameter ranges a pattern may be generated with: probabilities
    /// are at most one (in parts per million), and draws from `[0, n)` or
    /// `[1, n]` need `n` at least one.
    pub open spec fn wf(self) -> bool {
        match self {
            DataPattern::Runs { run_length, unique_values } => run_length >= 1
                && unique_values >= 1,
            DataPattern::Periodic { period, amplitude: _ } => period >= 1,
            DataPattern::Sparse { density_ppm } => density_ppm <= PPM_SCALE,
            DataPattern::Monotonic { step: _ } => true,
            DataPattern::Random => true,
            DataPattern::HighRepetition { repetition_ppm, run_length: _ } => repetition_ppm
                <= PPM_SCALE,
            DataPattern::LowRepetition { unique_ratio_ppm } => unique_ratio_ppm <= PPM_SCALE,
        }
    }

    /// Runtime check of the same parameter ranges.
    pub fn is_wf(&self) -> (r: bool)
        ensures
            r == self.wf(),
    {
        match *self {
            DataPattern::Runs { run_length, unique_values } => run_length >= 1
                && unique_values >= 1,
            DataPattern::Periodic { period, amplitude: _ } => period >= 1,
            DataPattern::Sparse { density_ppm } => density_ppm as u64 <= PPM_SCALE,
            DataPattern::Monotonic { step: _ } => true,
            DataPattern::Random => true,
            DataPattern::HighRepetition { repetition_ppm, run_length: _ } => repetition_ppm as u64
                <= PPM_SCALE,
            DataPattern::LowRepetition { unique_ratio_ppm } => unique_ratio_ppm as u64
                <= PPM_SCALE,
        }
    }
}

} // verus!
