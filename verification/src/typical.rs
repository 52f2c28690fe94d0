//! Turning a clustering collaborator's output into typical points.
//!
//! The collaborator itself is outside this crate: callers run it and hand
//! its weighted centers in.  Here the centers are sorted by weight
//! descending (input order among exactly tied weights), each center's first
//! representative candidate is emitted, and the weights are normalized by
//! the weight sum taken in sorted order.

use vstd::prelude::*;
use crate::bits::{
    f32_ge_zero,
    f64_ge_zero,
    f64_is_finite,
    f64_key,
    f64_key_exec,
    f64_lt,
    F64_POS_ZERO,
};
use crate::config::MAX_NUMBER_PER_DIMENSION;
use crate::softfp::{add64_of, add_f64, div64_of, div_f64, narrow_f64, narrow_of};
use crate::sorting::{
    key_le,
    key_sort,
    lemma_key_sort_elems,
    lemma_key_sort_sorted,
    sort_by_key,
};
use crate::summary::SampleSummary;

verus! {

/// A weighted center returned by the clustering collaborator: one or more
/// representative candidate vectors (binary32 patterns) and a non-negative
/// finite weight (a binary64 pattern).
pub struct Center {
    pub representative_candidates: Vec<Vec<u32>>,
    pub weight: u64,
}

/// The cluster count handed to the collaborator: `max_number`, capped at
/// `MAX_NUMBER_PER_DIMENSION` clusters per dimension.
pub fn cluster_cap(dimensions: usize, max_number: usize) -> (r: usize)
    requires
        dimensions * MAX_NUMBER_PER_DIMENSION <= usize::MAX,
    ensures
        r == if dimensions * MAX_NUMBER_PER_DIMENSION < max_number {
            dimensions * MAX_NUMBER_PER_DIMENSION
        } else {
            max_number as int
        },
        r <= max_number,
        r <= dimensions * MAX_NUMBER_PER_DIMENSION,
{
    let capped = dimensions * MAX_NUMBER_PER_DIMENSION;
    if capped < max_number {
        capped
    } else {
        max_number
    }
}

/// The sort key of center `i`: weight descending in the IEEE order (the
/// complemented order-embedding key), input position as the tiebreak.
pub open spec fn center_key(centers: Seq<Center>, i: int) -> (u64, u64) {
    ((0xffff_ffff_ffff_ffffu64 - f64_key(centers[i].weight)) as u64, i as u64)
}

pub open spec fn center_keys(centers: Seq<Center>) -> Seq<(u64, u64)> {
    Seq::new(centers.len(), |i: int| center_key(centers, i))
}

/// The center keys in descending weight order; the second component of
/// entry `k` is the input position of the `k`-th heaviest center.
pub open spec fn sorted_center_order(centers: Seq<Center>) -> Seq<(u64, u64)> {
    key_sort(center_keys(centers))
}

/// The weight of the `k`-th center in descending weight order.
pub open spec fn sorted_weight(centers: Seq<Center>, k: int) -> u64 {
    centers[sorted_center_order(centers)[k].1 as int].weight
}

/// The binary64 fold of the first `n` sorted weights, from +0.0.
pub open spec fn center_sum_spec(centers: Seq<Center>, n: int) -> u64
    decreases n,
{
    if n <= 0 {
        F64_POS_ZERO
    } else {
        add64_of(center_sum_spec(centers, n - 1), sorted_weight(centers, n - 1))
    }
}

/// The sorted order visits every input position exactly within bounds.
pub proof fn lemma_center_order_indices(centers: Seq<Center>)
    requires
        centers.len() <= 0xffff_ffff_ffff_ffff,
    ensures
        sorted_center_order(centers).len() == centers.len(),
        forall|t: int|
            0 <= t < centers.len() ==> (#[trigger] sorted_center_order(centers)[t]).1
                < centers.len(),
{
    lemma_key_sort_sorted(center_keys(centers));
    lemma_key_sort_elems(center_keys(centers));
    assert forall|t: int| 0 <= t < centers.len() implies (#[trigger] sorted_center_order(
        centers,
    )[t]).1 < centers.len() by {
        let e = sorted_center_order(centers)[t];
        assert(center_keys(centers).contains(e));
        let i = choose|i: int| 0 <= i < center_keys(centers).len() && center_keys(centers)[i] == e;
        assert(e == center_key(centers, i));
    }
}

/// Along the sorted order, weights are nonincreasing in the IEEE order.
pub proof fn lemma_center_order_desc(centers: Seq<Center>)
    requires
        centers.len() <= 0xffff_ffff_ffff_ffff,
    ensures
        forall|k1: int, k2: int|
            0 <= k1 <= k2 < centers.len() ==> f64_key(#[trigger] sorted_weight(centers, k1))
                >= f64_key(#[trigger] sorted_weight(centers, k2)),
{
    lemma_key_sort_sorted(center_keys(centers));
    lemma_key_sort_elems(center_keys(centers));
    let ord = sorted_center_order(centers);
    assert forall|k1: int, k2: int| 0 <= k1 <= k2 < centers.len() implies f64_key(
        #[trigger] sorted_weight(centers, k1),
    ) >= f64_key(#[trigger] sorted_weight(centers, k2)) by {
        assert(center_keys(centers).contains(ord[k1]));
        assert(center_keys(centers).contains(ord[k2]));
        let i1 = choose|i: int|
            0 <= i < center_keys(centers).len() && center_keys(centers)[i] == ord[k1];
        let i2 = choose|i: int|
            0 <= i < center_keys(centers).len() && center_keys(centers)[i] == ord[k2];
        assert(ord[k1] == center_key(centers, i1));
        assert(ord[k2] == center_key(centers, i2));
        assert(sorted_weight(centers, k1) == centers[i1].weight);
        assert(sorted_weight(centers, k2) == centers[i2].weight);
        if k1 < k2 {
            assert(key_le(ord[k1], ord[k2]));
            assert(ord[k1].0 <= ord[k2].0);
        }
        assert(ord[k1].0 == (0xffff_ffff_ffff_ffffu64 - f64_key(centers[i1].weight)) as u64);
        assert(ord[k2].0 == (0xffff_ffff_ffff_ffffu64 - f64_key(centers[i2].weight)) as u64);
    }
}

/// Sorts the collaborator's centers by weight descending, emits each
/// center's first representative candidate, and attaches the candidate list
/// together with the weights normalized by the sorted weight sum, as one
/// atomic extension of the summary.
///
/// When the weight sum is strictly positive, every normalized weight is
/// non-negative in the IEEE order.
#[verifier::loop_isolation(false)]
#[verifier::rlimit(30)]
pub fn attach_centers(summary: &mut SampleSummary, centers: &Vec<Center>)
    requires
        forall|k: int|
            0 <= k < centers@.len()
                ==> #[trigger] centers@[k].representative_candidates@.len() >= 1,
        forall|k: int|
            0 <= k < centers@.len() ==> f64_ge_zero(#[trigger] centers@[k].weight)
                && f64_is_finite(centers@[k].weight),
    ensures
        final(summary).summary_points@.len() == centers@.len(),
        final(summary).relative_weight@.len() == centers@.len(),
        forall|k: int|
            0 <= k < centers@.len() ==> {
                let pos = sorted_center_order(centers@)[k].1 as int;
                &&& #[trigger] final(summary).summary_points@[k]@ == centers@[pos]
                    .representative_candidates@[0]@
                &&& final(summary).relative_weight@[k] == narrow_of(
                    div64_of(
                        centers@[pos].weight,
                        center_sum_spec(centers@, centers@.len() as int),
                    ),
                )
            },
        forall|k1: int, k2: int|
            0 <= k1 <= k2 < centers@.len() ==> f64_key(#[trigger] sorted_weight(centers@, k1))
                >= f64_key(#[trigger] sorted_weight(centers@, k2)),
        f64_lt(F64_POS_ZERO, center_sum_spec(centers@, centers@.len() as int)) ==> forall|k: int|
            0 <= k < centers@.len() ==> f32_ge_zero(#[trigger] final(summary).relative_weight@[k]),
        final(summary).total_weight == old(summary).total_weight,
        final(summary).mean == old(summary).mean,
        final(summary).median == old(summary).median,
        final(summary).upper == old(summary).upper,
        final(summary).lower == old(summary).lower,
        final(summary).deviation == old(summary).deviation,
{
    let n = centers.len();
    let mut enc: Vec<(u64, u64)> = Vec::new();
    let mut i: usize = 0;
    while i < n
        invariant
            i <= n,
            enc@.len() == i,
            forall|k: int| 0 <= k < i ==> #[trigger] enc@[k] == center_keys(centers@)[k],
        decreases n - i,
    {
        let kw = f64_key_exec(centers[i].weight);
        enc.push((0xffff_ffff_ffff_ffffu64 - kw, i as u64));
        i = i + 1;
    }
    proof {
        assert(enc@ =~= center_keys(centers@));
        lemma_center_order_indices(centers@);
        lemma_center_order_desc(centers@);
    }
    let ord = sort_by_key(&enc);
    let mut center_sum: u64 = F64_POS_ZERO;
    let mut k: usize = 0;
    while k < n
        invariant
            k <= n,
            center_sum == center_sum_spec(centers@, k as int),
        decreases n - k,
    {
        let idx = ord[k].1 as usize;
        center_sum = add_f64(center_sum, centers[idx].weight);
        k = k + 1;
    }
    let mut summary_points: Vec<Vec<u32>> = Vec::new();
    let mut relative_weight: Vec<u32> = Vec::new();
    let mut k: usize = 0;
    while k < n
        invariant
            k <= n,
            summary_points@.len() == k,
            relative_weight@.len() == k,
            center_sum == center_sum_spec(centers@, n as int),
            forall|t: int|
                0 <= t < k ==> #[trigger] summary_points@[t]@ == centers@[sorted_center_order(
                    centers@,
                )[t].1 as int].representative_candidates@[0]@,
            forall|t: int|
                0 <= t < k ==> #[trigger] relative_weight@[t] == narrow_of(
                    div64_of(
                        centers@[sorted_center_order(centers@)[t].1 as int].weight,
                        center_sum_spec(centers@, n as int),
                    ),
                ),
            f64_lt(F64_POS_ZERO, center_sum_spec(centers@, n as int)) ==> forall|t: int|
                0 <= t < k ==> f32_ge_zero(#[trigger] relative_weight@[t]),
        decreases n - k,
    {
        let idx = ord[k].1 as usize;
        let cand = &centers[idx].representative_candidates[0];
        let mut c: Vec<u32> = Vec::new();
        let mut j: usize = 0;
        while j < cand.len()
            invariant
                j <= cand@.len(),
                c@.len() == j,
                forall|t: int| 0 <= t < j ==> #[trigger] c@[t] == cand@[t],
            decreases cand@.len() - j,
        {
            c.push(cand[j]);
            j = j + 1;
        }
        proof {
            assert(c@ =~= centers@[ord@[k as int].1 as int].representative_candidates@[0]@);
        }
        summary_points.push(c);
        let rel = narrow_f64(div_f64(centers[idx].weight, center_sum));
        relative_weight.push(rel);
        proof {
            if f64_lt(F64_POS_ZERO, center_sum_spec(centers@, n as int)) {
                assert(f64_ge_zero(center_sum));
                assert(!crate::bits::f64_is_zero(center_sum));
            }
        }
        k = k + 1;
    }
    summary.add_typical(summary_points, relative_weight);
}

} // verus!
