//! Benchmark orchestration: the trial matrix, the measurement record,
//! and the per-cell aggregation into comparison rows.
//!
//! The orchestrator's decisions are pure and verified here: which
//! trials to run, what a batch's uncompressed size is (a fixed formula,
//! not measured), which backends' compression ratios tie with the best
//! within the absolute tolerance, and what one report row holds.  The
//! caller performs the storage operations and the timing, and hands the
//! measured numbers back; every value derived from them is verified for
//! every possible measurement.
//!
//! Ratios are compared in exact integer arithmetic: with uncompressed
//! size `o` and written sizes `w_i`, backend `i` ties with the best
//! ratio when `o/w_i > o/w_j - 1/10000` for every `j`, which — all
//! sizes being positive — is `10000 * o * (w_i - w_j) < w_i * w_j`.

use vstd::prelude::*;
use crate::backend::BackendKind;
use crate::error::BenchError;
use crate::pattern::DataPattern;

verus! {

/// The operations a trial can measure.
#[derive(Clone, Copy, Debug, PartialEq, Eq, Structural)]
pub enum Operation {
    /// Serializing a batch into stored bytes.
    Write,
    /// Deserializing all rows back.
    Read,
    /// Random access to a set of row positions.
    Take,
}

/// One trial of the parameter matrix.
#[derive(Clone, Copy, Debug, PartialEq, Eq, Structural)]
pub struct TrialSpec {
    /// The backend under measurement.
    pub backend: BackendKind,
    /// The data shape the batch is generated with.
    pub pattern: DataPattern,
    /// The row count of the generated batch.
    pub rows: usize,
}

/// One measurement emitted by a trial.
#[derive(Clone, Copy, Debug, PartialEq, Eq, Structural)]
pub struct BenchmarkResult {
    /// The backend measured.
    pub backend: BackendKind,
    /// The data shape of the batch.
    pub pattern: DataPattern,
    /// The row count of the batch.
    pub rows: usize,
    /// The operation measured.
    pub operation: Operation,
    /// The bytes written or read by the operation.
    pub bytes: u64,
    /// The measured duration, in nanoseconds.
    pub elapsed_nanos: u64,
}

/// Record one measurement.
pub fn record_result(
    backend: BackendKind,
    pattern: DataPattern,
    rows: usize,
    operation: Operation,
    bytes: u64,
    elapsed_nanos: u64,
) -> (r: BenchmarkResult)
    ensures
        r == (BenchmarkResult { backend, pattern, rows, operation, bytes, elapsed_nanos }),
{
    BenchmarkResult { backend, pattern, rows, operation, bytes, elapsed_nanos }
}

/// The trials for one backend, pattern and every size, in size order.
pub open spec fn spec_plan_sizes(b: BackendKind, p: DataPattern, ss: Seq<usize>) -> Seq<
    TrialSpec,
> {
    ss.map_values(|s: usize| TrialSpec { backend: b, pattern: p, rows: s })
}

/// The trials for one backend and every pattern and size.
pub open spec fn spec_plan_patterns(b: BackendKind, ps: Seq<DataPattern>, ss: Seq<usize>) -> Seq<
    TrialSpec,
>
    decreases ps.len(),
{
    if ps.len() == 0 {
        Seq::empty()
    } else {
        spec_plan_patterns(b, ps.drop_last(), ss) + spec_plan_sizes(b, ps.last(), ss)
    }
}

/// The whole trial matrix: backend outermost, then pattern, then size.
pub open spec fn spec_plan(
    bs: Seq<BackendKind>,
    ps: Seq<DataPattern>,
    ss: Seq<usize>,
) -> Seq<TrialSpec>
    decreases bs.len(),
{
    if bs.len() == 0 {
        Seq::empty()
    } else {
        spec_plan(bs.drop_last(), ps, ss) + spec_plan_patterns(bs.last(), ps, ss)
    }
}

/// Build the cross product backend × pattern × size as one flat list of
/// trials, driven by the given parameter tables.
pub fn plan_trials(
    backends: &Vec<BackendKind>,
    patterns: &Vec<DataPattern>,
    sizes: &Vec<usize>,
) -> (r: Vec<TrialSpec>)
    ensures
        r@ == spec_plan(backends@, patterns@, sizes@),
{
    let mut out: Vec<TrialSpec> = Vec::new();
    let mut b: usize = 0;
    while b < backends.len()
        invariant
            b <= backends@.len(),
            out@ == spec_plan(backends@.take(b as int), patterns@, sizes@),
        decreases backends@.len() - b,
    {
        let mut p: usize = 0;
        while p < patterns.len()
            invariant
                b < backends@.len(),
                p <= patterns@.len(),
                out@ == spec_plan(backends@.take(b as int), patterns@, sizes@)
                    + spec_plan_patterns(backends@[b as int], patterns@.take(p as int), sizes@),
            decreases patterns@.len() - p,
        {
            let mut s: usize = 0;
            while s < sizes.len()
                invariant
                    b < backends@.len(),
                    p < patterns@.len(),
                    s <= sizes@.len(),
                    out@ == spec_plan(backends@.take(b as int), patterns@, sizes@)
                        + spec_plan_patterns(backends@[b as int], patterns@.take(p as int), sizes@)
                        + spec_plan_sizes(
                        backends@[b as int],
                        patterns@[p as int],
                        sizes@,
                    ).take(s as int),
                decreases sizes@.len() - s,
            {
                out.push(
                    TrialSpec {
                        backend: backends[b],
                        pattern: patterns[p],
                        rows: sizes[s],
                    },
                );
                proof {
                    let full: Seq<TrialSpec> = spec_plan_sizes(
                        backends@[b as int],
                        patterns@[p as int],
                        sizes@,
                    );
                    assert(full.take(s + 1) =~= full.take(s as int).push(full[s as int]));
                    assert(out@ =~= spec_plan(backends@.take(b as int), patterns@, sizes@)
                        + spec_plan_patterns(backends@[b as int], patterns@.take(p as int), sizes@)
                        + full.take(s + 1));
                }
                s = s + 1;
            }
            proof {
                let full: Seq<TrialSpec> = spec_plan_sizes(
                    backends@[b as int],
                    patterns@[p as int],
                    sizes@,
                );
                assert(full.take(full.len() as int) =~= full);
                assert(patterns@.take(p + 1).drop_last() =~= patterns@.take(p as int));
                assert(patterns@.take(p + 1).last() == patterns@[p as int]);
                assert(out@ =~= spec_plan(backends@.take(b as int), patterns@, sizes@)
                    + spec_plan_patterns(backends@[b as int], patterns@.take(p + 1), sizes@));
            }
            p = p + 1;
        }
        proof {
            assert(patterns@.take(patterns@.len() as int) =~= patterns@);
            assert(backends@.take(b + 1).drop_last() =~= backends@.take(b as int));
            assert(backends@.take(b + 1).last() == backends@[b as int]);
            assert(out@ =~= spec_plan(backends@.take(b + 1), patterns@, sizes@));
        }
        b = b + 1;
    }
    proof {
        assert(backends@.take(backends@.len() as int) =~= backends@);
    }
    out
}

/// The uncompressed size of a batch of 64-bit integer columns: each
/// column's native per-row width (eight bytes) times the row count,
/// summed over the columns.  A fixed formula, not a measurement.
pub open spec fn spec_uncompressed_size(rows: nat, cols: nat) -> int {
    8 * ((rows * cols) as int)
}

/// Compute the uncompressed size, rejecting a product beyond the size
/// type.
pub fn uncompressed_size(rows: usize, cols: usize) -> (r: Result<u64, BenchError>)
    ensures
        r matches Ok(n) ==> n == spec_uncompressed_size(rows as nat, cols as nat),
        r is Ok <==> spec_uncompressed_size(rows as nat, cols as nat) <= u64::MAX,
        r matches Err(e) ==> e == BenchError::SizeOverflow,
{
    proof {
        assert((rows as int) * (cols as int) <= 0xFFFFFFFFFFFFFFFF * 0xFFFFFFFFFFFFFFFF)
            by (nonlinear_arith)
            requires
                0 <= rows <= 0xFFFFFFFFFFFFFFFF,
                0 <= cols <= 0xFFFFFFFFFFFFFFFF,
        ;
    }
    let p: u128 = (rows as u128) * (cols as u128);
    if p > (u64::MAX / 8) as u128 {
        Err(BenchError::SizeOverflow)
    } else {
        Ok((8 * p) as u64)
    }
}

/// Whether backend `i`'s compression ratio ties with the best across
/// all backends, within the absolute tolerance of one ten-thousandth.
pub open spec fn spec_within_best(orig: u64, written: Seq<u64>, i: int) -> bool {
    forall|j: int|
        0 <= j < written.len() ==> 10000 * (orig as int) * (written[i] - (#[trigger] written[j]))
            < (written[i] as int) * (written[j] as int)
}

/// Whether `o/wi` stays above `o/wj - 1/10000`, in exact arithmetic.
fn ratio_not_behind(orig: u64, wi: u64, wj: u64) -> (r: bool)
    requires
        wi >= 1,
        wj >= 1,
    ensures
        r == (10000 * (orig as int) * (wi - wj) < (wi as int) * (wj as int)),
{
    proof {
        assert((wi as int) * (wj as int) >= 1) by (nonlinear_arith)
            requires
                wi >= 1,
                wj >= 1,
        ;
        assert((wi as int) * (wj as int) <= 0xFFFFFFFFFFFFFFFF * 0xFFFFFFFFFFFFFFFF)
            by (nonlinear_arith)
            requires
                1 <= wi <= 0xFFFFFFFFFFFFFFFF,
                1 <= wj <= 0xFFFFFFFFFFFFFFFF,
        ;
    }
    if wi <= wj {
        proof {
            assert(10000 * (orig as int) * ((wi as int) - (wj as int)) <= 0) by (nonlinear_arith)
                requires
                    0 <= orig,
                    wi <= wj,
            ;
        }
        true
    } else {
        let diff: u64 = wi - wj;
        let a: u128 = 10000u128 * (orig as u128);
        let rhs: u128 = (wi as u128) * (wj as u128);
        match a.checked_mul(diff as u128) {
            Some(l) => l < rhs,
            None => {
                proof {
                    assert(10000 * (orig as int) * (diff as int) >= (wi as int) * (wj as int)) by {
                        assert(a * (diff as int) > u128::MAX);
                    }
                }
                false
            },
        }
    }
}

/// Copy a size list.
fn copy_sizes(v: &Vec<u64>) -> (r: Vec<u64>)
    ensures
        r@ == v@,
{
    let mut out: Vec<u64> = Vec::new();
    let mut i: usize = 0;
    while i < v.len()
        invariant
            i <= v@.len(),
            out@ == v@.take(i as int),
        decreases v@.len() - i,
    {
        out.push(v[i]);
        proof {
            assert(out@ =~= v@.take(i + 1));
        }
        i = i + 1;
    }
    proof {
        assert(v@.take(v@.len() as int) =~= v@);
    }
    out
}

/// Flag, for each backend, whether its ratio ties with the best within
/// the tolerance, in the backends' declared order.  A written size of
/// zero aborts: the ratio would divide by it.
pub fn best_ratio_flags(original: u64, written: &Vec<u64>) -> (r: Result<Vec<bool>, BenchError>)
    ensures
        r is Ok <==> (forall|j: int| 0 <= j < written@.len() ==> (#[trigger] written@[j]) >= 1),
        r matches Err(e) ==> e == BenchError::ZeroWrittenSize,
        r matches Ok(flags) ==> {
            &&& flags@.len() == written@.len()
            &&& forall|i: int|
                0 <= i < flags@.len() ==> (#[trigger] flags@[i]) == spec_within_best(
                    original,
                    written@,
                    i,
                )
        },
{
    let mut k: usize = 0;
    while k < written.len()
        invariant
            k <= written@.len(),
            forall|q: int| 0 <= q < k ==> (#[trigger] written@[q]) >= 1,
        decreases written@.len() - k,
    {
        if written[k] == 0 {
            return Err(BenchError::ZeroWrittenSize);
        }
        k = k + 1;
    }
    let mut flags: Vec<bool> = Vec::new();
    let mut i: usize = 0;
    while i < written.len()
        invariant
            i <= written@.len(),
            forall|q: int| 0 <= q < written@.len() ==> (#[trigger] written@[q]) >= 1,
            flags@.len() == i,
            forall|q: int|
                0 <= q < i ==> (#[trigger] flags@[q]) == spec_within_best(original, written@, q),
        decreases written@.len() - i,
    {
        let mut ok: bool = true;
        let mut j: usize = 0;
        while j < written.len()
            invariant
                i < written@.len(),
                j <= written@.len(),
                forall|q: int| 0 <= q < written@.len() ==> (#[trigger] written@[q]) >= 1,
                ok == (forall|q: int|
                    0 <= q < j ==> 10000 * (original as int) * (written@[i as int]
                        - (#[trigger] written@[q])) < (written@[i as int] as int) * (written@[q]
                        as int)),
            decreases written@.len() - j,
        {
            let step: bool = ratio_not_behind(original, written[i], written[j]);
            ok = ok && step;
            j = j + 1;
        }
        flags.push(ok);
        i = i + 1;
    }
    Ok(flags)
}

/// The compression ratio in hundredths, rounded to the nearest (ties
/// upward): `round(100 * orig / w)`.
pub open spec fn spec_ratio_centi(orig: int, w: int) -> int {
    (200 * orig + w) / (2 * w)
}

/// Compute the displayed ratio in hundredths.
pub fn ratio_centi(orig: u64, w: u64) -> (r: u128)
    requires
        w >= 1,
    ensures
        r == spec_ratio_centi(orig as int, w as int),
{
    let num: u128 = 200u128 * (orig as u128) + (w as u128);
    let den: u128 = 2u128 * (w as u128);
    num / den
}

/// One row of the comparison table: a (pattern, size) cell aggregated
/// across the backends, in their declared order.
#[derive(Debug, PartialEq, Eq)]
pub struct ComparisonRow {
    /// The row count of the cell.
    pub rows: usize,
    /// The uncompressed size by the fixed formula.
    pub uncompressed: u64,
    /// The written size per backend.
    pub written: Vec<u64>,
    /// The displayed ratio per backend, in hundredths.
    pub ratio_centis: Vec<u128>,
    /// Whether each backend ties with the best ratio.
    pub best: Vec<bool>,
}

/// Aggregate one (pattern, size) cell: the uncompressed size by the
/// fixed formula, each backend's ratio, and the best-ratio flags.  The
/// formula overflowing the size type aborts first; a written size of
/// zero aborts next, so a ratio never divides by zero.
pub fn summarize_cell(rows: usize, cols: usize, written: &Vec<u64>) -> (r: Result<
    ComparisonRow,
    BenchError,
>)
    ensures
        r matches Err(e) ==> (e == BenchError::SizeOverflow || e == BenchError::ZeroWrittenSize),
        r matches Err(e) ==> (e == BenchError::SizeOverflow <==> spec_uncompressed_size(
            rows as nat,
            cols as nat,
        ) > u64::MAX),
        r is Ok <==> (spec_uncompressed_size(rows as nat, cols as nat) <= u64::MAX && (forall|
            j: int,
        | 0 <= j < written@.len() ==> (#[trigger] written@[j]) >= 1)),
        r matches Ok(row) ==> {
            &&& row.rows == rows
            &&& row.uncompressed == spec_uncompressed_size(rows as nat, cols as nat)
            &&& row.written@ == written@
            &&& row.ratio_centis@.len() == written@.len()
            &&& forall|q: int|
                0 <= q < written@.len() ==> (#[trigger] row.ratio_centis@[q]) == spec_ratio_centi(
                    row.uncompressed as int,
                    written@[q] as int,
                )
            &&& row.best@.len() == written@.len()
            &&& forall|q: int|
                0 <= q < written@.len() ==> (#[trigger] row.best@[q]) == spec_within_best(
                    row.uncompressed,
                    written@,
                    q,
                )
        },
{
    let uncompressed: u64 = match uncompressed_size(rows, cols) {
        Ok(n) => n,
        Err(e) => {
            return Err(e);
        },
    };
    let best: Vec<bool> = match best_ratio_flags(uncompressed, written) {
        Ok(f) => f,
        Err(e) => {
            return Err(e);
        },
    };
    let mut ratio_centis: Vec<u128> = Vec::new();
    let mut q: usize = 0;
    while q < written.len()
        invariant
            q <= written@.len(),
            forall|k: int| 0 <= k < written@.len() ==> (#[trigger] written@[k]) >= 1,
            ratio_centis@.len() == q,
            forall|k: int|
                0 <= k < q ==> (#[trigger] ratio_centis@[k]) == spec_ratio_centi(
                    uncompressed as int,
                    written@[k] as int,
                ),
        decreases written@.len() - q,
    {
        ratio_centis.push(ratio_centi(uncompressed, written[q]));
        q = q + 1;
    }
    let written_copy: Vec<u64> = copy_sizes(written);
    Ok(
        ComparisonRow {
            rows,
            uncompressed,
            written: written_copy,
            ratio_centis,
            best,
        },
    )
}

} // verus!
