//! The pattern generator: a deterministic integer sequence of exact
//! length for each [`DataPattern`].
//!
//! Every sequence is a mathematical function of the pattern, the size
//! and the generator seed; the benchmark entry point always seeds with
//! the fixed constant, so repeated runs see bit-identical data.  Each
//! executable generator is proved equal to the spec-level sequence.

use vstd::prelude::*;
use crate::pattern::DataPattern;
use crate::rng::{spec_step, SeededRng, BENCH_SEED, PPM_SCALE};

verus! {

/// Sparse positions that fire hold a value below this bound.
pub const SPARSE_VALUE_BOUND: u64 = 100;

/// The full value domain of the `Random` pattern: the non-negative
/// half of the 64-bit signed range, so arithmetic on values stays exact.
pub const RANDOM_VALUE_BOUND: u64 = 0x8000000000000000;

/// Repeated (low-range) values of `HighRepetition` lie below this bound.
pub const REPEAT_VALUE_BOUND: u64 = 1000;

/// High-range values of `HighRepetition` start here, above every
/// possible low-range value, so the two ranges are disjoint.
pub const UNIQUE_VALUE_BASE: u64 = 1000000;

/// Width of the high-range value interval of `HighRepetition`.
pub const UNIQUE_VALUE_RANGE: u64 = 1000000000000;

/// The sawtooth value at position `i`: `(i % period) * amplitude / period`.
pub open spec fn spec_sawtooth(period: u32, amplitude: u32, i: int) -> i64 {
    (((i % (period as int)) * (amplitude as int)) / (period as int)) as i64
}

/// The `Runs` sequence: a value below `unique_values`, repeated for a
/// drawn run length, the final run truncated to fit.
pub open spec fn spec_runs(run_length: u32, unique_values: u32, rem: nat, s: u64) -> Seq<i64>
    decreases rem,
{
    if rem == 0 {
        Seq::empty()
    } else {
        let s1: u64 = spec_step(s);
        let v: i64 = (s1 % (unique_values as u64)) as i64;
        let s2: u64 = spec_step(s1);
        let draw: u64 = (s2 % (run_length as u64)) as u64;
        let len: int = 1 + draw;
        let take: nat = if len <= rem { len as nat } else { rem };
        Seq::new(take, |k: int| v) + spec_runs(run_length, unique_values, (rem - take) as nat, s2)
    }
}

/// The `Sparse` sequence: an independent coin per position; a position
/// that fires draws a small value, the others hold zero.
pub open spec fn spec_sparse(density_ppm: u32, rem: nat, s: u64) -> Seq<i64>
    decreases rem,
{
    if rem == 0 {
        Seq::empty()
    } else {
        let s1: u64 = spec_step(s);
        if s1 % PPM_SCALE < density_ppm as u64 {
            let s2: u64 = spec_step(s1);
            seq![(s2 % SPARSE_VALUE_BOUND) as i64] + spec_sparse(
                density_ppm,
                (rem - 1) as nat,
                s2,
            )
        } else {
            seq![0i64] + spec_sparse(density_ppm, (rem - 1) as nat, s1)
        }
    }
}

/// The `Random` sequence: one full-domain draw per position.
pub open spec fn spec_random(rem: nat, s: u64) -> Seq<i64>
    decreases rem,
{
    if rem == 0 {
        Seq::empty()
    } else {
        let s1: u64 = spec_step(s);
        seq![(s1 % RANDOM_VALUE_BOUND) as i64] + spec_random((rem - 1) as nat, s1)
    }
}

/// The `HighRepetition` sequence: per step, either a run of one repeated
/// low-range value or a single high-range value.
pub open spec fn spec_high_rep(repetition_ppm: u32, run_length: u32, rem: nat, s: u64) -> Seq<
    i64,
>
    decreases rem,
{
    if rem == 0 {
        Seq::empty()
    } else {
        let s1: u64 = spec_step(s);
        if s1 % PPM_SCALE < repetition_ppm as u64 {
            let s2: u64 = spec_step(s1);
            let v: i64 = (s2 % REPEAT_VALUE_BOUND) as i64;
            if run_length <= 1 {
                seq![v] + spec_high_rep(repetition_ppm, run_length, (rem - 1) as nat, s2)
            } else {
                let s3: u64 = spec_step(s2);
                let draw: u64 = (s3 % (run_length as u64)) as u64;
                let len: int = 1 + draw;
                let take: nat = if len <= rem { len as nat } else { rem };
                Seq::new(take, |k: int| v) + spec_high_rep(
                    repetition_ppm,
                    run_length,
                    (rem - take) as nat,
                    s3,
                )
            }
        } else {
            let s2: u64 = spec_step(s1);
            let v: i64 = (UNIQUE_VALUE_BASE + s2 % UNIQUE_VALUE_RANGE) as i64;
            seq![v] + spec_high_rep(repetition_ppm, run_length, (rem - 1) as nat, s2)
        }
    }
}

/// A sequence with positions `i` and `j` exchanged.
pub open spec fn spec_swap<T>(cur: Seq<T>, i: int, j: int) -> Seq<T> {
    cur.update(i, cur[j]).update(j, cur[i])
}

/// Padding for `LowRepetition`: `rem` further elements, each re-sampled
/// uniformly from the elements already present.  Returns the padded
/// sequence and the generator state after the draws.
pub open spec fn spec_pad(cur: Seq<i64>, rem: nat, s: u64) -> (Seq<i64>, u64)
    decreases rem,
{
    if rem == 0 {
        (cur, s)
    } else {
        let s1: u64 = spec_step(s);
        let draw: u64 = (s1 % (cur.len() as u64)) as u64;
        let idx: int = draw as int;
        spec_pad(cur.push(cur[idx]), (rem - 1) as nat, s1)
    }
}

/// The deterministic shuffle of `LowRepetition` from position `i` on:
/// each position is exchanged with a drawn position at or after it.
pub open spec fn spec_shuffle(cur: Seq<i64>, i: nat, s: u64) -> (Seq<i64>, u64)
    decreases cur.len() - i,
{
    if i + 1 >= cur.len() {
        (cur, s)
    } else {
        let s1: u64 = spec_step(s);
        let draw: u64 = (s1 % ((cur.len() - i) as u64)) as u64;
        let j: int = i + draw;
        spec_shuffle(spec_swap(cur, i as int, j), i + 1, s1)
    }
}

/// How many distinct values `LowRepetition` starts from.
pub open spec fn spec_unique_count(unique_ratio_ppm: u32, size: nat) -> nat {
    ((size as int * unique_ratio_ppm as int) / (PPM_SCALE as int)) as nat
}

/// The `LowRepetition` sequence: all of `0..size` when the requested
/// unique count reaches the size; otherwise the distinct values first,
/// padding re-sampled from them, then the deterministic shuffle.  A
/// unique count of zero is treated as one, so padding always has a
/// value to re-sample.
pub open spec fn spec_low_rep(unique_ratio_ppm: u32, size: nat, s: u64) -> Seq<i64> {
    let uc0: nat = spec_unique_count(unique_ratio_ppm, size);
    if uc0 >= size {
        Seq::new(size, |i: int| i as i64)
    } else {
        let uc: nat = if uc0 == 0 { 1nat } else { uc0 };
        let base: Seq<i64> = Seq::new(uc, |i: int| i as i64);
        let padded: (Seq<i64>, u64) = spec_pad(base, (size - uc) as nat, s);
        spec_shuffle(padded.0, 0, padded.1).0
    }
}

/// The sequence a pattern generates from a given generator state.
pub open spec fn spec_generate_from(p: DataPattern, size: nat, s: u64) -> Seq<i64> {
    match p {
        DataPattern::Runs { run_length, unique_values } => spec_runs(
            run_length,
            unique_values,
            size,
            s,
        ),
        DataPattern::Periodic { period, amplitude } => Seq::new(
            size,
            |i: int| spec_sawtooth(period, amplitude, i),
        ),
        DataPattern::Sparse { density_ppm } => spec_sparse(density_ppm, size, s),
        DataPattern::Monotonic { step } => Seq::new(size, |i: int| (i * step as int) as i64),
        DataPattern::Random => spec_random(size, s),
        DataPattern::HighRepetition { repetition_ppm, run_length } => spec_high_rep(
            repetition_ppm,
            run_length,
            size,
            s,
        ),
        DataPattern::LowRepetition { unique_ratio_ppm } => spec_low_rep(
            unique_ratio_ppm,
            size,
            s,
        ),
    }
}

/// The sequence a pattern generates in a benchmark run: the generator
/// is seeded with the fixed benchmark seed.
pub open spec fn spec_generate(p: DataPattern, size: nat) -> Seq<i64> {
    spec_generate_from(p, size, BENCH_SEED)
}

/// Machine bounds under which the generated values fit in 64-bit
/// signed integers.
pub open spec fn spec_size_fits(p: DataPattern, size: nat) -> bool {
    match p {
        DataPattern::Monotonic { step } => size as int * step as int <= i64::MAX,
        DataPattern::LowRepetition { unique_ratio_ppm: _ } => size <= i64::MAX,
        _ => true,
    }
}

/// Append `n` copies of `v`.
fn push_repeat(out: &mut Vec<i64>, v: i64, n: usize)
    ensures
        final(out)@ == old(out)@ + Seq::new(n as nat, |k: int| v),
{
    let mut i: usize = 0;
    while i < n
        invariant
            i <= n,
            out@ == old(out)@ + Seq::new(i as nat, |k: int| v),
        decreases n - i,
    {
        out.push(v);
        i = i + 1;
        proof {
            assert(out@ =~= old(out)@ + Seq::new(i as nat, |k: int| v));
        }
    }
    proof {
        assert(out@ =~= old(out)@ + Seq::new(n as nat, |k: int| v));
    }
}

fn generate_runs(run_length: u32, unique_values: u32, size: usize, rng: &mut SeededRng) -> (r:
    Vec<i64>)
    requires
        run_length >= 1,
        unique_values >= 1,
    ensures
        r@ == spec_runs(run_length, unique_values, size as nat, old(rng)@),
        r@.len() == size,
{
    let ghost s0: u64 = rng@;
    let mut out: Vec<i64> = Vec::new();
    while out.len() < size
        invariant
            run_length >= 1,
            unique_values >= 1,
            out@.len() <= size,
            out@ + spec_runs(run_length, unique_values, (size - out@.len()) as nat, rng@)
                == spec_runs(run_length, unique_values, size as nat, s0),
        decreases size - out@.len(),
    {
        let ghost s_pre: u64 = rng@;
        let ghost rem: nat = (size - out@.len()) as nat;
        let v_u: u64 = rng.next_below(unique_values as u64);
        let len_u: u64 = rng.next_below(run_length as u64) + 1;
        let remaining: usize = size - out.len();
        let take: usize = if len_u <= remaining as u64 {
            len_u as usize
        } else {
            remaining
        };
        let ghost out_pre: Seq<i64> = out@;
        push_repeat(&mut out, v_u as i64, take);
        proof {
            let s2: u64 = rng@;
            assert(spec_runs(run_length, unique_values, rem, s_pre) == Seq::new(
                take as nat,
                |k: int| v_u as i64,
            ) + spec_runs(run_length, unique_values, (rem - take) as nat, s2));
            assert(out_pre + spec_runs(run_length, unique_values, rem, s_pre) =~= out@
                + spec_runs(run_length, unique_values, (rem - take) as nat, s2));
        }
    }
    proof {
        assert(spec_runs(run_length, unique_values, 0, rng@) == Seq::<i64>::empty());
        assert(out@ =~= out@ + Seq::<i64>::empty());
    }
    out
}

fn generate_periodic(period: u32, amplitude: u32, size: usize) -> (r: Vec<i64>)
    requires
        period >= 1,
    ensures
        r@ == Seq::new(size as nat, |i: int| spec_sawtooth(period, amplitude, i)),
        r@.len() == size,
{
    let mut out: Vec<i64> = Vec::new();
    let mut i: usize = 0;
    while i < size
        invariant
            period >= 1,
            i <= size,
            out@.len() == i,
            forall|j: int| 0 <= j < i ==> out@[j] == spec_sawtooth(period, amplitude, j),
        decreases size - i,
    {
        let phase: u64 = (i as u64) % (period as u64);
        proof {
            assert(phase * (amplitude as u64) < 0x10000000000000000) by (nonlinear_arith)
                requires
                    phase < 0x100000000,
                    amplitude < 0x100000000,
            ;
        }
        let prod: u64 = phase * (amplitude as u64);
        let val: u64 = prod / (period as u64);
        out.push(val as i64);
        i = i + 1;
    }
    proof {
        assert(out@ =~= Seq::new(size as nat, |i: int| spec_sawtooth(period, amplitude, i)));
    }
    out
}

fn generate_sparse(density_ppm: u32, size: usize, rng: &mut SeededRng) -> (r: Vec<i64>)
    ensures
        r@ == spec_sparse(density_ppm, size as nat, old(rng)@),
        r@.len() == size,
{
    let ghost s0: u64 = rng@;
    let mut out: Vec<i64> = Vec::new();
    while out.len() < size
        invariant
            out@.len() <= size,
            out@ + spec_sparse(density_ppm, (size - out@.len()) as nat, rng@) == spec_sparse(
                density_ppm,
                size as nat,
                s0,
            ),
        decreases size - out@.len(),
    {
        let ghost s_pre: u64 = rng@;
        let ghost rem: nat = (size - out@.len()) as nat;
        let ghost out_pre: Seq<i64> = out@;
        let fires: bool = rng.coin(density_ppm as u64);
        let v: i64 = if fires {
            rng.next_below(SPARSE_VALUE_BOUND) as i64
        } else {
            0
        };
        out.push(v);
        proof {
            assert(spec_sparse(density_ppm, rem, s_pre) == seq![v] + spec_sparse(
                density_ppm,
                (rem - 1) as nat,
                rng@,
            ));
            assert(out_pre + spec_sparse(density_ppm, rem, s_pre) =~= out@ + spec_sparse(
                density_ppm,
                (rem - 1) as nat,
                rng@,
            ));
        }
    }
    proof {
        assert(spec_sparse(density_ppm, 0, rng@) == Seq::<i64>::empty());
        assert(out@ =~= out@ + Seq::<i64>::empty());
    }
    out
}

fn generate_monotonic(step: u32, size: usize) -> (r: Vec<i64>)
    requires
        size as int * step as int <= i64::MAX,
    ensures
        r@ == Seq::new(size as nat, |i: int| (i * step as int) as i64),
        r@.len() == size,
{
    let mut out: Vec<i64> = Vec::new();
    let mut i: usize = 0;
    while i < size
        invariant
            i <= size,
            size as int * step as int <= i64::MAX,
            out@.len() == i,
            forall|j: int| 0 <= j < i ==> out@[j] == (j * step as int) as i64,
        decreases size - i,
    {
        proof {
            assert(i as int * step as int <= size as int * step as int) by (nonlinear_arith)
                requires
                    0 <= i <= size,
                    step >= 0,
            ;
        }
        let val: u64 = (i as u64) * (step as u64);
        out.push(val as i64);
        i = i + 1;
    }
    proof {
        assert(out@ =~= Seq::new(size as nat, |i: int| (i * step as int) as i64));
    }
    out
}

fn generate_random(size: usize, rng: &mut SeededRng) -> (r: Vec<i64>)
    ensures
        r@ == spec_random(size as nat, old(rng)@),
        r@.len() == size,
{
    let ghost s0: u64 = rng@;
    let mut out: Vec<i64> = Vec::new();
    while out.len() < size
        invariant
            out@.len() <= size,
            out@ + spec_random((size - out@.len()) as nat, rng@) == spec_random(size as nat, s0),
        decreases size - out@.len(),
    {
        let ghost s_pre: u64 = rng@;
        let ghost rem: nat = (size - out@.len()) as nat;
        let ghost out_pre: Seq<i64> = out@;
        let v: i64 = rng.next_below(RANDOM_VALUE_BOUND) as i64;
        out.push(v);
        proof {
            assert(spec_random(rem, s_pre) == seq![v] + spec_random((rem - 1) as nat, rng@));
            assert(out_pre + spec_random(rem, s_pre) =~= out@ + spec_random(
                (rem - 1) as nat,
                rng@,
            ));
        }
    }
    proof {
        assert(spec_random(0, rng@) == Seq::<i64>::empty());
        assert(out@ =~= out@ + Seq::<i64>::empty());
    }
    out
}

fn generate_high_rep(repetition_ppm: u32, run_length: u32, size: usize, rng: &mut SeededRng) -> (r:
    Vec<i64>)
    ensures
        r@ == spec_high_rep(repetition_ppm, run_length, size as nat, old(rng)@),
        r@.len() == size,
{
    let ghost s0: u64 = rng@;
    let mut out: Vec<i64> = Vec::new();
    while out.len() < size
        invariant
            out@.len() <= size,
            out@ + spec_high_rep(repetition_ppm, run_length, (size - out@.len()) as nat, rng@)
                == spec_high_rep(repetition_ppm, run_length, size as nat, s0),
        decreases size - out@.len(),
    {
        let ghost s_pre: u64 = rng@;
        let ghost rem: nat = (size - out@.len()) as nat;
        let ghost out_pre: Seq<i64> = out@;
        let repeats: bool = rng.coin(repetition_ppm as u64);
        if repeats {
            let v: i64 = rng.next_below(REPEAT_VALUE_BOUND) as i64;
            if run_length <= 1 {
                out.push(v);
                proof {
                    assert(spec_high_rep(repetition_ppm, run_length, rem, s_pre) == seq![v]
                        + spec_high_rep(repetition_ppm, run_length, (rem - 1) as nat, rng@));
                    assert(out_pre + spec_high_rep(repetition_ppm, run_length, rem, s_pre) =~= out@
                        + spec_high_rep(repetition_ppm, run_length, (rem - 1) as nat, rng@));
                }
            } else {
                let len_u: u64 = rng.next_below(run_length as u64) + 1;
                let remaining: usize = size - out.len();
                let take: usize = if len_u <= remaining as u64 {
                    len_u as usize
                } else {
                    remaining
                };
                push_repeat(&mut out, v, take);
                proof {
                    assert(spec_high_rep(repetition_ppm, run_length, rem, s_pre) == Seq::new(
                        take as nat,
                        |k: int| v,
                    ) + spec_high_rep(repetition_ppm, run_length, (rem - take) as nat, rng@));
                    assert(out_pre + spec_high_rep(repetition_ppm, run_length, rem, s_pre) =~= out@
                        + spec_high_rep(repetition_ppm, run_length, (rem - take) as nat, rng@));
                }
            }
        } else {
            let v: i64 = (UNIQUE_VALUE_BASE + rng.next_below(UNIQUE_VALUE_RANGE)) as i64;
            out.push(v);
            proof {
                assert(spec_high_rep(repetition_ppm, run_length, rem, s_pre) == seq![v]
                    + spec_high_rep(repetition_ppm, run_length, (rem - 1) as nat, rng@));
                assert(out_pre + spec_high_rep(repetition_ppm, run_length, rem, s_pre) =~= out@
                    + spec_high_rep(repetition_ppm, run_length, (rem - 1) as nat, rng@));
            }
        }
    }
    proof {
        assert(spec_high_rep(repetition_ppm, run_length, 0, rng@) == Seq::<i64>::empty());
        assert(out@ =~= out@ + Seq::<i64>::empty());
    }
    out
}

/// The first `n` identity values `0, 1, ..., n - 1`.
fn fill_identity(n: usize) -> (r: Vec<i64>)
    requires
        n <= i64::MAX,
    ensures
        r@ == Seq::new(n as nat, |i: int| i as i64),
{
    let mut out: Vec<i64> = Vec::new();
    let mut i: usize = 0;
    while i < n
        invariant
            i <= n,
            n <= i64::MAX,
            out@.len() == i,
            forall|j: int| 0 <= j < i ==> out@[j] == j as i64,
        decreases n - i,
    {
        out.push(i as i64);
        i = i + 1;
    }
    proof {
        assert(out@ =~= Seq::new(n as nat, |i: int| i as i64));
    }
    out
}

/// Pad to `size` elements by re-sampling the elements already present.
fn pad_from_existing(out: &mut Vec<i64>, size: usize, rng: &mut SeededRng)
    requires
        1 <= old(out)@.len() <= size,
    ensures
        (final(out)@, final(rng)@) == spec_pad(
            old(out)@,
            (size - old(out)@.len()) as nat,
            old(rng)@,
        ),
        final(out)@.len() == size,
{
    let ghost padded: (Seq<i64>, u64) = spec_pad(out@, (size - out@.len()) as nat, rng@);
    while out.len() < size
        invariant
            1 <= out@.len() <= size,
            spec_pad(out@, (size - out@.len()) as nat, rng@) == padded,
        decreases size - out@.len(),
    {
        let ghost s_pre: u64 = rng@;
        let ghost rem: nat = (size - out@.len()) as nat;
        let ghost out_pre: Seq<i64> = out@;
        let idx: u64 = rng.next_below(out.len() as u64);
        let v: i64 = out[idx as usize];
        out.push(v);
        proof {
            assert(spec_pad(out_pre, rem, s_pre) == spec_pad(
                out_pre.push(out_pre[idx as int]),
                (rem - 1) as nat,
                rng@,
            ));
        }
    }
    proof {
        assert(spec_pad(out@, 0, rng@) == (out@, rng@));
    }
}

/// The deterministic in-place shuffle.
fn shuffle(out: &mut Vec<i64>, rng: &mut SeededRng)
    ensures
        final(out)@ == spec_shuffle(old(out)@, 0, old(rng)@).0,
        final(out)@.len() == old(out)@.len(),
{
    let ghost shuffled: (Seq<i64>, u64) = spec_shuffle(out@, 0, rng@);
    let n: usize = out.len();
    if n == 0 {
        return ;
    }
    let mut i: usize = 0;
    while i + 1 < n
        invariant
            out@.len() == n,
            i < n,
            spec_shuffle(out@, i as nat, rng@) == shuffled,
        decreases n - i,
    {
        let ghost s_pre: u64 = rng@;
        let ghost out_pre: Seq<i64> = out@;
        let offset: u64 = rng.next_below((n - i) as u64);
        let j: usize = i + offset as usize;
        let vi: i64 = out[i];
        let vj: i64 = out[j];
        out.set(i, vj);
        out.set(j, vi);
        proof {
            assert(out@ =~= spec_swap(out_pre, i as int, j as int));
            assert(spec_shuffle(out_pre, i as nat, s_pre) == spec_shuffle(
                spec_swap(out_pre, i as int, j as int),
                (i + 1) as nat,
                rng@,
            ));
        }
        i = i + 1;
    }
    proof {
        assert(spec_shuffle(out@, i as nat, rng@) == (out@, rng@));
    }
}

/// The requested number of distinct values, in wide arithmetic.
fn unique_count_wide(unique_ratio_ppm: u32, size: usize) -> (r: u128)
    ensures
        r == spec_unique_count(unique_ratio_ppm, size as nat),
{
    proof {
        assert((size as int) * (unique_ratio_ppm as int) <= 0xFFFFFFFFFFFFFFFF * 0xFFFFFFFF)
            by (nonlinear_arith)
            requires
                0 <= size <= 0xFFFFFFFFFFFFFFFF,
                0 <= unique_ratio_ppm <= 0xFFFFFFFF,
        ;
    }
    let wide: u128 = (size as u128) * (unique_ratio_ppm as u128) / (PPM_SCALE as u128);
    wide
}

fn generate_low_rep(unique_ratio_ppm: u32, size: usize, rng: &mut SeededRng) -> (r: Vec<i64>)
    requires
        size <= i64::MAX,
    ensures
        r@ == spec_low_rep(unique_ratio_ppm, size as nat, old(rng)@),
        r@.len() == size,
{
    let wide: u128 = unique_count_wide(unique_ratio_ppm, size);
    if wide >= size as u128 {
        // All values distinct: the identity sequence, unshuffled.
        fill_identity(size)
    } else {
        let uc: usize = if wide == 0 {
            1
        } else {
            wide as usize
        };
        let mut out: Vec<i64> = fill_identity(uc);
        pad_from_existing(&mut out, size, rng);
        shuffle(&mut out, rng);
        out
    }
}

/// Generate the sequence for `pattern` of exactly `size` elements,
/// drawing from a caller-owned generator.
pub fn generate_with(pattern: &DataPattern, size: usize, rng: &mut SeededRng) -> (r: Vec<i64>)
    requires
        pattern.wf(),
        spec_size_fits(*pattern, size as nat),
    ensures
        r@ == spec_generate_from(*pattern, size as nat, old(rng)@),
        r@.len() == size,
{
    match *pattern {
        DataPattern::Runs { run_length, unique_values } => generate_runs(
            run_length,
            unique_values,
            size,
            rng,
        ),
        DataPattern::Periodic { period, amplitude } => generate_periodic(period, amplitude, size),
        DataPattern::Sparse { density_ppm } => generate_sparse(density_ppm, size, rng),
        DataPattern::Monotonic { step } => generate_monotonic(step, size),
        DataPattern::Random => generate_random(size, rng),
        DataPattern::HighRepetition { repetition_ppm, run_length } => generate_high_rep(
            repetition_ppm,
            run_length,
            size,
            rng,
        ),
        DataPattern::LowRepetition { unique_ratio_ppm } => generate_low_rep(
            unique_ratio_ppm,
            size,
            rng,
        ),
    }
}

/// Generate the sequence for `pattern` of exactly `size` elements, as a
/// benchmark trial does: from a generator seeded with the fixed
/// benchmark seed, so that every run sees the same data.
pub fn generate(pattern: &DataPattern, size: usize) -> (r: Vec<i64>)
    requires
        pattern.wf(),
        spec_size_fits(*pattern, size as nat),
    ensures
        r@ == spec_generate(*pattern, size as nat),
        r@.len() == size,
{
    let mut rng = SeededRng::for_benchmark();
    generate_with(pattern, size, &mut rng)
}

/// Generation is deterministic: any two sequences generated for the
/// same pattern and size (hence from the same fixed seed) are equal.
pub proof fn lemma_generate_deterministic(p: DataPattern, size: nat, r1: Seq<i64>, r2: Seq<i64>)
    requires
        r1 == spec_generate(p, size),
        r2 == spec_generate(p, size),
    ensures
        r1 == r2,
{
}

proof fn lemma_sparse_zero_density_from(rem: nat, s: u64)
    ensures
        spec_sparse(0, rem, s).len() == rem,
        forall|i: int| 0 <= i < rem ==> spec_sparse(0, rem, s)[i] == 0,
    decreases rem,
{
    if rem > 0 {
        lemma_sparse_zero_density_from((rem - 1) as nat, spec_step(s));
    }
}

/// A sparse pattern of density zero never fires: the generated
/// sequence is all zeros, at every size.
pub proof fn lemma_sparse_zero_density(size: nat)
    ensures
        spec_generate(DataPattern::Sparse { density_ppm: 0 }, size).len() == size,
        forall|i: int|
            0 <= i < size ==> spec_generate(DataPattern::Sparse { density_ppm: 0 }, size)[i] == 0,
{
    lemma_sparse_zero_density_from(size, BENCH_SEED);
}

/// A unique ratio of one means every value is distinct: the generated
/// sequence is exactly `0, 1, ..., size - 1`, unshuffled.
pub proof fn lemma_low_repetition_all_distinct(size: nat)
    requires
        size <= i64::MAX,
    ensures
        spec_generate(DataPattern::LowRepetition { unique_ratio_ppm: PPM_SCALE as u32 }, size)
            == Seq::new(size, |i: int| i as i64),
        forall|i: int, j: int|
            0 <= i < j < size ==> #[trigger] spec_generate(
                DataPattern::LowRepetition { unique_ratio_ppm: PPM_SCALE as u32 },
                size,
            )[i] != #[trigger] spec_generate(
                DataPattern::LowRepetition { unique_ratio_ppm: PPM_SCALE as u32 },
                size,
            )[j],
{
    assert((size as int * PPM_SCALE as int) / (PPM_SCALE as int) == size) by (nonlinear_arith)
        requires
            PPM_SCALE >= 1,
            size >= 0,
    ;
}

} // verus!
