//! The index sampler: a deterministic, strictly increasing,
//! duplicate-free set of row positions for random-access trials.
//!
//! A ratio of the row count (in parts per million) fixes how many
//! positions are selected; a partial deterministic shuffle of the
//! identity permutation picks them, and sorting yields the index set.
//! Because the positions come from a permutation they are distinct, so
//! the sorted sequence is strictly increasing, and — being sorted with
//! a pinned multiset — it is the same on every run.

use vstd::prelude::*;
use vstd::relations::{sorted_by, total_ordering};
use vstd::seq_lib::lemma_sorted_unique;
use crate::generate::spec_swap;
use crate::rng::{spec_step, SeededRng, BENCH_SEED, PPM_SCALE};

verus! {

/// How many row positions a ratio selects out of `size`.
pub open spec fn spec_index_count(size: nat, ratio_ppm: u32) -> nat {
    ((size as int * ratio_ppm as int) / (PPM_SCALE as int)) as nat
}

/// The partial deterministic shuffle: each position before `count` is
/// exchanged with a drawn position at or after it.
pub open spec fn spec_partial_shuffle(cur: Seq<usize>, i: nat, count: nat, s: u64) -> (
    Seq<usize>,
    u64,
)
    decreases count - i,
{
    if i >= count || i + 1 >= cur.len() {
        (cur, s)
    } else {
        let s1: u64 = spec_step(s);
        let draw: u64 = (s1 % ((cur.len() - i) as u64)) as u64;
        let j: int = i + draw;
        spec_partial_shuffle(spec_swap(cur, i as int, j), i + 1, count, s1)
    }
}

/// The positions a trial selects, before sorting: the first `count`
/// entries of the partially shuffled identity permutation.
pub open spec fn spec_selected(size: nat, ratio_ppm: u32, s: u64) -> Seq<usize> {
    let count: nat = spec_index_count(size, ratio_ppm);
    let ident: Seq<usize> = Seq::new(size, |i: int| i as usize);
    spec_partial_shuffle(ident, 0, count, s).0.take(count as int)
}

/// The at-most order the index set is sorted by.
pub open spec fn position_le(a: usize, b: usize) -> bool {
    a <= b
}

/// What `generate_indices` returns: exactly `floor(size * ratio)`
/// positions, each below `size`, strictly increasing, and drawn from
/// the fixed-seed partial shuffle.
pub open spec fn spec_is_index_set(r: Seq<usize>, size: nat, ratio_ppm: u32) -> bool {
    &&& r.len() == spec_index_count(size, ratio_ppm)
    &&& (forall|k: int| 0 <= k < r.len() ==> r[k] < size)
    &&& (forall|k1: int, k2: int| 0 <= k1 < k2 < r.len() ==> r[k1] < r[k2])
    &&& r.to_multiset() == spec_selected(size, ratio_ppm, BENCH_SEED).to_multiset()
}

/// The requested share of `size`, in wide arithmetic.
fn index_count(size: usize, ratio_ppm: u32) -> (r: usize)
    requires
        ratio_ppm <= PPM_SCALE,
    ensures
        r == spec_index_count(size as nat, ratio_ppm),
        r <= size,
{
    proof {
        assert((size as int) * (ratio_ppm as int) <= 0xFFFFFFFFFFFFFFFF * 0xFFFFFFFF)
            by (nonlinear_arith)
            requires
                0 <= size <= 0xFFFFFFFFFFFFFFFF,
                0 <= ratio_ppm <= 0xFFFFFFFF,
        ;
        assert((size as int * ratio_ppm as int) / (PPM_SCALE as int) <= size)
            by (nonlinear_arith)
            requires
                0 <= size,
                0 <= ratio_ppm <= PPM_SCALE,
                PPM_SCALE >= 1,
        ;
    }
    let wide: u128 = (size as u128) * (ratio_ppm as u128) / (PPM_SCALE as u128);
    wide as usize
}

/// The identity permutation of `0..n`.
fn identity_positions(n: usize) -> (r: Vec<usize>)
    ensures
        r@ == Seq::new(n as nat, |i: int| i as usize),
{
    let mut out: Vec<usize> = Vec::new();
    let mut i: usize = 0;
    while i < n
        invariant
            i <= n,
            out@.len() == i,
            forall|j: int| 0 <= j < i ==> out@[j] == j as usize,
        decreases n - i,
    {
        out.push(i);
        i = i + 1;
    }
    proof {
        assert(out@ =~= Seq::new(n as nat, |i: int| i as usize));
    }
    out
}

/// Sort positions ascending by adjacent exchanges, keeping the multiset
/// of elements.
fn sort_positions(v: &mut Vec<usize>)
    ensures
        final(v)@.len() == old(v)@.len(),
        forall|a: int, b: int| 0 <= a < b < final(v)@.len() ==> final(v)@[a] <= final(v)@[b],
        final(v)@.to_multiset() == old(v)@.to_multiset(),
{
    let n: usize = v.len();
    let mut i: usize = 1;
    while i < n
        invariant
            1 <= i,
            n == v@.len(),
            v@.to_multiset() == old(v)@.to_multiset(),
            forall|a: int, b: int| 0 <= a < b < i && b < n ==> v@[a] <= v@[b],
        decreases n - i,
    {
        let mut j: usize = i;
        while j >= 1 && v[j - 1] > v[j]
            invariant
                0 <= j <= i < n,
                n == v@.len(),
                v@.to_multiset() == old(v)@.to_multiset(),
                forall|a: int, b: int| 0 <= a < b <= i && a != j && b != j ==> v@[a] <= v@[b],
                forall|b: int| j < b <= i ==> v@[j as int] <= v@[b],
            decreases j,
        {
            let ghost pre: Seq<usize> = v@;
            let x: usize = v[j - 1];
            let y: usize = v[j];
            v.set(j - 1, y);
            v.set(j, x);
            proof {
                assert(v@ =~= spec_swap(pre, j - 1, j as int));
                lemma_swap_multiset(pre, j - 1, j as int);
            }
            j = j - 1;
        }
        proof {
            assert(forall|a: int, b: int| 0 <= a < b <= i && b < n ==> v@[a] <= v@[b]);
        }
        i = i + 1;
    }
}

/// Exchanging two positions keeps the multiset of elements.
proof fn lemma_swap_multiset(s: Seq<usize>, i: int, j: int)
    requires
        0 <= i < s.len(),
        0 <= j < s.len(),
    ensures
        spec_swap(s, i, j).to_multiset() == s.to_multiset(),
{
    broadcast use vstd::seq_lib::group_to_multiset_ensures;

    if i == j {
        assert(spec_swap(s, i, j) =~= s);
    } else {
        let lo: int = if i < j { i } else { j };
        let hi: int = if i < j { j } else { i };
        let t: Seq<usize> = spec_swap(s, i, j);
        assert(t =~= spec_swap(s, lo, hi));
        // Peel position `lo` off both sequences: the tails differ only
        // at position `hi - 1`.
        assert(t.remove(lo) =~= s.remove(lo).update(hi - 1, s[lo]));
        assert(t.remove(lo).to_multiset() =~= t.to_multiset().remove(t[lo]));
        assert(s.remove(lo).to_multiset() =~= s.to_multiset().remove(s[lo]));
        // Peel position `hi - 1` off both tails: what is left is equal.
        let t2: Seq<usize> = t.remove(lo);
        let s2: Seq<usize> = s.remove(lo);
        assert(t2.remove(hi - 1) =~= s2.remove(hi - 1));
        assert(t2.remove(hi - 1).to_multiset() =~= t2.to_multiset().remove(t2[hi - 1]));
        assert(s2.remove(hi - 1).to_multiset() =~= s2.to_multiset().remove(s2[hi - 1]));
        assert(t2[hi - 1] == s[lo]);
        assert(s2[hi - 1] == s[hi]);
        assert(t.to_multiset().contains(t[lo]));
        assert(s.to_multiset().contains(s[lo]));
        assert(t2.to_multiset().contains(t2[hi - 1]));
        assert(s2.to_multiset().contains(s2[hi - 1]));
        assert(t.to_multiset() =~= s.to_multiset()) by {
            assert(t2.to_multiset() =~= t.to_multiset().remove(s[hi]));
            assert(s2.to_multiset() =~= s.to_multiset().remove(s[lo]));
            assert(t.to_multiset().remove(s[hi]).remove(s[lo]) =~= s.to_multiset().remove(
                s[lo],
            ).remove(s[hi]));
        }
    }
}

/// Produce the index set for a random-access trial over `size` rows:
/// exactly `floor(size * ratio_ppm / 1000000)` distinct positions, each
/// below `size`, strictly increasing, drawn with the fixed benchmark
/// seed so that every run selects the same rows.
pub fn generate_indices(size: usize, ratio_ppm: u32) -> (r: Vec<usize>)
    requires
        ratio_ppm <= PPM_SCALE,
    ensures
        spec_is_index_set(r@, size as nat, ratio_ppm),
{
    let count: usize = index_count(size, ratio_ppm);
    let mut rng = SeededRng::for_benchmark();
    let mut v: Vec<usize> = identity_positions(size);
    let ghost target: (Seq<usize>, u64) = spec_partial_shuffle(v@, 0, count as nat, rng@);
    let mut i: usize = 0;
    while i < count && i + 1 < size
        invariant
            i <= count <= size,
            v@.len() == size,
            spec_partial_shuffle(v@, i as nat, count as nat, rng@) == target,
            forall|k: int| 0 <= k < size ==> v@[k] < size,
            forall|k1: int, k2: int| 0 <= k1 < k2 < size ==> v@[k1] != v@[k2],
        decreases count - i,
    {
        let ghost s_pre: u64 = rng@;
        let ghost pre: Seq<usize> = v@;
        let offset: u64 = rng.next_below((size - i) as u64);
        let j: usize = i + offset as usize;
        let vi: usize = v[i];
        let vj: usize = v[j];
        v.set(i, vj);
        v.set(j, vi);
        proof {
            assert(v@ =~= spec_swap(pre, i as int, j as int));
            assert(spec_partial_shuffle(pre, i as nat, count as nat, s_pre)
                == spec_partial_shuffle(
                spec_swap(pre, i as int, j as int),
                (i + 1) as nat,
                count as nat,
                rng@,
            ));
        }
        i = i + 1;
    }
    proof {
        assert(spec_partial_shuffle(v@, i as nat, count as nat, rng@) == (v@, rng@));
    }
    let mut picked: Vec<usize> = Vec::new();
    let mut k: usize = 0;
    while k < count
        invariant
            k <= count <= size,
            v@.len() == size,
            picked@ == v@.take(k as int),
        decreases count - k,
    {
        picked.push(v[k]);
        proof {
            assert(picked@ =~= v@.take(k + 1));
        }
        k = k + 1;
    }
    let ghost unsorted: Seq<usize> = picked@;
    proof {
        assert(unsorted == spec_selected(size as nat, ratio_ppm, BENCH_SEED));
        assert(unsorted.no_duplicates());
        assert(forall|q: int| 0 <= q < unsorted.len() ==> unsorted[q] < size);
        unsorted.lemma_multiset_has_no_duplicates();
    }
    sort_positions(&mut picked);
    proof {
        broadcast use vstd::seq_lib::group_to_multiset_ensures;

        picked@.lemma_multiset_has_no_duplicates_conv();
        assert forall|q: int| 0 <= q < picked@.len() implies picked@[q] < size by {
            assert(picked@.to_multiset().contains(picked@[q]));
            assert(unsorted.to_multiset().contains(picked@[q]));
            assert(unsorted.contains(picked@[q]));
        }
        assert(forall|k1: int, k2: int|
            0 <= k1 < k2 < picked@.len() ==> picked@[k1] < picked@[k2]);
    }
    picked
}

/// Two index sets for the same trial are equal: both are sorted and
/// hold the same multiset of positions, and a sorted sequence with a
/// pinned multiset is unique.
pub proof fn lemma_indices_deterministic(r1: Seq<usize>, r2: Seq<usize>, size: nat, ratio_ppm: u32)
    requires
        spec_is_index_set(r1, size, ratio_ppm),
        spec_is_index_set(r2, size, ratio_ppm),
    ensures
        r1 == r2,
{
    let leq = |a: usize, b: usize| position_le(a, b);
    assert(total_ordering(leq));
    assert(sorted_by(r1, leq));
    assert(sorted_by(r2, leq));
    lemma_sorted_unique(r1, r2, leq);
}

/// The degenerate single-index sampler: the fixed middle row,
/// whatever the access ratio.  It exists beside `generate_indices`
/// because single-row access trials use a fixed point rather than a
/// sampled set; the two are deliberately distinct contracts.
pub fn middle_index(size: usize) -> (r: usize)
    requires
        size >= 1,
    ensures
        r == size / 2,
        r < size,
{
    size / 2
}

} // verus!
