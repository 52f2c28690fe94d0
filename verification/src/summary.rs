//! The weighted statistics engine and its summary aggregate.
//!
//! A batch is a sequence of weighted points; each point is a coordinate
//! vector of binary32 bit patterns and a binary32 weight pattern.  In
//! contracts a batch is abstracted to `Seq<(Seq<u32>, u32)>`, so that the
//! owned-vector entry point and the referenced-vector entry point share one
//! mathematical description.
//!
//! Every accumulated binary64 value (total weight, per-dimension moment
//! sums, cursor weights) is pinned exactly, as the fold of the named
//! software-float operations in the order the engine evaluates them.

use vstd::prelude::*;
use crate::bits::{
    f32_ge_zero,
    f32_ge_zero_exec,
    f32_is_finite,
    f32_is_finite_exec,
    f32_key,
    f32_key_exec,
    f32_le,
    f64_is_finite,
    f64_is_finite_exec,
    f64_lt,
    f64_lt_exec,
    F64_POS_ZERO,
};
use crate::config::{HALF, TWO};
use crate::errors::SummaryError;
use crate::softfp::{
    add64_of,
    add_f64,
    div64_of,
    div_f64,
    mul64_of,
    mul_f64,
    narrow_f64,
    narrow_of,
    sqrt64_of,
    sqrt_f64,
    sub64_of,
    sub_f64,
    widen_f32,
    widen_of,
};
use crate::sorting::{
    key_le,
    key_sort,
    lemma_key_sort_elems,
    lemma_key_sort_sorted,
    sort_by_key,
};
use vstd::arithmetic::div_mod::{lemma_mod_multiples_vanish, lemma_small_mod};

verus! {

/// The abstract content of a batch of owned points.
pub open spec fn owned_batch(points: Seq<(Vec<u32>, u32)>) -> Seq<(Seq<u32>, u32)> {
    Seq::new(points.len(), |i: int| (points[i].0@, points[i].1))
}

/// The abstract content of a batch of referenced points.
pub open spec fn ref_batch(points: Seq<(&Vec<u32>, u32)>) -> Seq<(Seq<u32>, u32)> {
    Seq::new(points.len(), |i: int| (points[i].0@, points[i].1))
}

/// The total weight: the binary64 fold of the widened weights of the first
/// `n` points, in batch order, from +0.0.
pub open spec fn total_weight_spec(points: Seq<(Seq<u32>, u32)>, n: int) -> u64
    decreases n,
{
    if n <= 0 {
        F64_POS_ZERO
    } else {
        add64_of(total_weight_spec(points, n - 1), widen_of(points[n - 1].1))
    }
}

/// The weighted coordinate sum of dimension `j` over the first `n` points.
pub open spec fn sum_wv_spec(points: Seq<(Seq<u32>, u32)>, j: int, n: int) -> u64
    decreases n,
{
    if n <= 0 {
        F64_POS_ZERO
    } else {
        add64_of(
            sum_wv_spec(points, j, n - 1),
            mul64_of(widen_of(points[n - 1].1), widen_of(points[n - 1].0[j])),
        )
    }
}

/// The weighted squared coordinate sum of dimension `j` over the first `n`
/// points, multiplied left to right: `(w * v) * v`.
pub open spec fn sum_wvv_spec(points: Seq<(Seq<u32>, u32)>, j: int, n: int) -> u64
    decreases n,
{
    if n <= 0 {
        F64_POS_ZERO
    } else {
        add64_of(
            sum_wvv_spec(points, j, n - 1),
            mul64_of(
                mul64_of(widen_of(points[n - 1].1), widen_of(points[n - 1].0[j])),
                widen_of(points[n - 1].0[j]),
            ),
        )
    }
}

/// Point `i`'s coordinates pass validation: all `dimensions` leading
/// coordinates are finite.
pub open spec fn point_coords_valid(points: Seq<(Seq<u32>, u32)>, dimensions: int, i: int) -> bool {
    forall|j: int| 0 <= j < dimensions ==> f32_is_finite(#[trigger] points[i].0[j])
}

/// The first negative-weight violation at or after point `i`.
pub open spec fn weight_error_spec(points: Seq<(Seq<u32>, u32)>, i: int) -> Option<SummaryError>
    decreases points.len() - i,
{
    if i >= points.len() {
        None
    } else if !f32_ge_zero(points[i].1) {
        Some(SummaryError::NegativeWeight)
    } else {
        weight_error_spec(points, i + 1)
    }
}

/// The first non-finite-coordinate violation at or after point `i`.
pub open spec fn coord_error_spec(
    points: Seq<(Seq<u32>, u32)>,
    dimensions: int,
    i: int,
) -> Option<SummaryError>
    decreases points.len() - i,
{
    if i >= points.len() {
        None
    } else if exists|j: int| 0 <= j < dimensions && !f32_is_finite(#[trigger] points[i].0[j]) {
        Some(SummaryError::NonFiniteCoordinate)
    } else {
        coord_error_spec(points, dimensions, i + 1)
    }
}

/// The first violated precondition of the whole computation, in the fixed
/// validation order: empty batch, the two fractions, the dimension count,
/// every weight non-negative, the total weight positive and finite, every
/// coordinate finite.
pub open spec fn batch_error_spec(
    dimensions: int,
    points: Seq<(Seq<u32>, u32)>,
    lower_fraction: u64,
    upper_fraction: u64,
) -> Option<SummaryError> {
    let total = total_weight_spec(points, points.len() as int);
    if points.len() == 0 {
        Some(SummaryError::EmptyBatch)
    } else if !f64_lt(lower_fraction, HALF) {
        Some(SummaryError::InvalidLowerFraction)
    } else if !f64_lt(HALF, upper_fraction) {
        Some(SummaryError::InvalidUpperFraction)
    } else if dimensions <= 0 {
        Some(SummaryError::ZeroDimensions)
    } else if weight_error_spec(points, 0) is Some {
        weight_error_spec(points, 0)
    } else if !f64_lt(F64_POS_ZERO, total) {
        Some(SummaryError::NonPositiveTotalWeight)
    } else if !f64_is_finite(total) {
        Some(SummaryError::NonFiniteTotalWeight)
    } else {
        coord_error_spec(points, dimensions, 0)
    }
}

/// The weight scan skips over a non-negative prefix.
pub proof fn lemma_weight_scan_prefix(points: Seq<(Seq<u32>, u32)>, i: int)
    requires
        0 <= i <= points.len(),
        forall|k: int| 0 <= k < i ==> f32_ge_zero(#[trigger] points[k].1),
    ensures
        weight_error_spec(points, 0) == weight_error_spec(points, i),
    decreases i,
{
    if i > 0 {
        lemma_weight_scan_prefix(points, i - 1);
        assert(f32_ge_zero(points[i - 1].1));
    }
}

/// A batch of non-negative weights passes the weight scan.
pub proof fn lemma_weight_scan_none(points: Seq<(Seq<u32>, u32)>, i: int)
    requires
        0 <= i <= points.len(),
        forall|k: int| i <= k < points.len() ==> f32_ge_zero(#[trigger] points[k].1),
    ensures
        weight_error_spec(points, i) is None,
    decreases points.len() - i,
{
    if i < points.len() {
        assert(f32_ge_zero(points[i].1));
        lemma_weight_scan_none(points, i + 1);
    }
}

/// The coordinate scan skips over a valid prefix.
pub proof fn lemma_coord_scan_prefix(points: Seq<(Seq<u32>, u32)>, dimensions: int, i: int)
    requires
        0 <= i <= points.len(),
        forall|k: int| 0 <= k < i ==> point_coords_valid(points, dimensions, k),
    ensures
        coord_error_spec(points, dimensions, 0) == coord_error_spec(points, dimensions, i),
    decreases i,
{
    if i > 0 {
        lemma_coord_scan_prefix(points, dimensions, i - 1);
        assert(point_coords_valid(points, dimensions, i - 1));
    }
}

/// A batch of finite coordinates passes the coordinate scan.
pub proof fn lemma_coord_scan_none(points: Seq<(Seq<u32>, u32)>, dimensions: int, i: int)
    requires
        0 <= i <= points.len(),
        forall|k: int| i <= k < points.len() ==> point_coords_valid(points, dimensions, k),
    ensures
        coord_error_spec(points, dimensions, i) is None,
    decreases points.len() - i,
{
    if i < points.len() {
        assert(point_coords_valid(points, dimensions, i));
        lemma_coord_scan_none(points, dimensions, i + 1);
    }
}

/// The encoded sort key of a `(coordinate, weight)` pair: the IEEE order of
/// the coordinate becomes the integer order of the first component (the
/// order-embedding key in the high half, the raw pattern as a tiebreak in
/// the low half), and the raw weight pattern breaks remaining ties.
pub open spec fn enc_pair(v: u32, w: u32) -> (u64, u64) {
    (((f32_key(v) as u64) * 0x1_0000_0000 + (v as u64)) as u64, w as u64)
}

/// The `(coordinate, weight)` pair encoded in a sort key.
pub open spec fn dec_pair(e: (u64, u64)) -> (u32, u32) {
    ((e.0 % 0x1_0000_0000) as u32, (e.1 % 0x1_0000_0000) as u32)
}

/// The encoded `(coordinate, weight)` pairs of dimension `j`.
pub open spec fn enc_pairs_at(points: Seq<(Seq<u32>, u32)>, j: int) -> Seq<(u64, u64)> {
    Seq::new(points.len(), |i: int| enc_pair(points[i].0[j], points[i].1))
}

/// The `(coordinate, weight)` pairs of dimension `j`, sorted ascending in
/// the IEEE order of the coordinate (ties resolved by raw patterns).
pub open spec fn sorted_pairs_at(points: Seq<(Seq<u32>, u32)>, j: int) -> Seq<(u32, u32)> {
    key_sort(enc_pairs_at(points, j)).map_values(|e: (u64, u64)| dec_pair(e))
}

/// The state of the amortized weighted-selection cursor run until the next
/// element would not stay below `target`: the final index and the weight
/// accumulated strictly before it.  Addition orders mirror the execution:
/// the probe is `element + running`, the accumulation `running + element`.
pub open spec fn pick_spec(y: Seq<(u32, u32)>, target: u64, start: int, running: u64) -> (
    int,
    u64,
)
    decreases y.len() - start,
{
    if start + 1 < y.len() && f64_lt(add64_of(widen_of(y[start].1), running), target) {
        pick_spec(y, target, start + 1, add64_of(running, widen_of(y[start].1)))
    } else {
        (start, running)
    }
}

/// The three cursor states of dimension `j`: lower percentile, median and
/// upper percentile, each resuming from the previous one.
pub open spec fn order_stat_picks(
    points: Seq<(Seq<u32>, u32)>,
    j: int,
    total: u64,
    lower_fraction: u64,
    upper_fraction: u64,
) -> ((int, u64), (int, u64), (int, u64)) {
    let y = sorted_pairs_at(points, j);
    let p1 = pick_spec(y, mul64_of(total, lower_fraction), 0, F64_POS_ZERO);
    let p2 = pick_spec(y, div64_of(total, TWO), p1.0, p1.1);
    let p3 = pick_spec(y, mul64_of(total, upper_fraction), p2.0, p2.1);
    (p1, p2, p3)
}

/// The stored mean of dimension `j`.
pub open spec fn mean_spec(points: Seq<(Seq<u32>, u32)>, j: int, total: u64) -> u32 {
    narrow_of(div64_of(sum_wv_spec(points, j, points.len() as int), total))
}

/// The stored standard deviation of dimension `j`: the square root of the
/// second moment minus the squared first moment, clamped to +0.0 first.
pub open spec fn deviation_spec(points: Seq<(Seq<u32>, u32)>, j: int, total: u64) -> u32 {
    let s = sum_wv_spec(points, j, points.len() as int);
    let q = sum_wvv_spec(points, j, points.len() as int);
    let t = sub64_of(div64_of(q, total), div64_of(mul64_of(s, s), mul64_of(total, total)));
    narrow_of(sqrt64_of(if f64_lt(F64_POS_ZERO, t) { t } else { F64_POS_ZERO }))
}

/// The exact content of a freshly computed summary of a valid batch.
pub open spec fn summary_exact(
    s: SampleSummary,
    dimensions: int,
    points: Seq<(Seq<u32>, u32)>,
    lower_fraction: u64,
    upper_fraction: u64,
) -> bool {
    let total = total_weight_spec(points, points.len() as int);
    &&& s.total_weight == narrow_of(total)
    &&& s.summary_points@.len() == 0
    &&& s.relative_weight@.len() == 0
    &&& s.mean@.len() == dimensions
    &&& s.median@.len() == dimensions
    &&& s.upper@.len() == dimensions
    &&& s.lower@.len() == dimensions
    &&& s.deviation@.len() == dimensions
    &&& forall|j: int| 0 <= j < dimensions ==> #[trigger] s.mean@[j] == mean_spec(points, j, total)
    &&& forall|j: int|
        0 <= j < dimensions ==> #[trigger] s.deviation@[j] == deviation_spec(points, j, total)
    &&& forall|j: int|
        0 <= j < dimensions ==> {
            let y = sorted_pairs_at(points, j);
            let picks = order_stat_picks(points, j, total, lower_fraction, upper_fraction);
            &&& #[trigger] s.lower@[j] == y[picks.0.0].0
            &&& s.median@[j] == y[picks.1.0].0
            &&& s.upper@[j] == y[picks.2.0].0
        }
    &&& forall|j: int| 0 <= j < dimensions ==> f32_ge_zero(#[trigger] s.deviation@[j])
    &&& forall|j: int|
        0 <= j < dimensions ==> f32_le(#[trigger] s.lower@[j], s.median@[j]) && f32_le(
            s.median@[j],
            s.upper@[j],
        )
}

/// The exact outcome of a statistics computation: an error exactly when the
/// batch violates a precondition — the first one, in validation order — and
/// otherwise the summary that `summary_exact` pins down.
pub open spec fn summary_result(
    r: Result<SampleSummary, SummaryError>,
    dimensions: int,
    points: Seq<(Seq<u32>, u32)>,
    lower_fraction: u64,
    upper_fraction: u64,
) -> bool {
    &&& r is Err <==> batch_error_spec(dimensions, points, lower_fraction, upper_fraction) is Some
    &&& (r matches Err(e) ==> batch_error_spec(dimensions, points, lower_fraction, upper_fraction)
        == Some(e))
    &&& (r matches Ok(s) ==> summary_exact(s, dimensions, points, lower_fraction, upper_fraction))
}

/// Decoding inverts encoding.
pub proof fn lemma_enc_dec(v: u32, w: u32)
    ensures
        dec_pair(enc_pair(v, w)) == (v, w),
{
    let k = f32_key(v) as int;
    lemma_mod_multiples_vanish(k, v as int, 0x1_0000_0000);
    lemma_small_mod(v as nat, 0x1_0000_0000);
    lemma_small_mod(w as nat, 0x1_0000_0000);
}

/// The integer order of encoded keys bounds the order-embedding keys of the
/// encoded coordinates.
pub proof fn lemma_enc_key_le(va: u32, wa: u32, vb: u32, wb: u32)
    requires
        enc_pair(va, wa).0 <= enc_pair(vb, wb).0,
    ensures
        f32_key(va) <= f32_key(vb),
{
    assert(va < 0x1_0000_0000 && vb < 0x1_0000_0000);
}

/// In the sorted pairs of a fully valid batch, coordinates at nondecreasing
/// positions are nondecreasing in the IEEE order.
pub proof fn lemma_sorted_value_le(
    points: Seq<(Seq<u32>, u32)>,
    dimensions: int,
    j: int,
    a: int,
    b: int,
)
    requires
        0 <= j < dimensions,
        forall|k: int| 0 <= k < points.len() ==> point_coords_valid(points, dimensions, k),
        0 <= a <= b < points.len(),
    ensures
        f32_le(sorted_pairs_at(points, j)[a].0, sorted_pairs_at(points, j)[b].0),
{
    let enc = enc_pairs_at(points, j);
    let sorted = key_sort(enc);
    lemma_key_sort_sorted(enc);
    lemma_key_sort_elems(enc);
    assert(enc.contains(sorted[a]));
    assert(enc.contains(sorted[b]));
    let ia = choose|i: int| 0 <= i < enc.len() && enc[i] == sorted[a];
    let ib = choose|i: int| 0 <= i < enc.len() && enc[i] == sorted[b];
    let va = points[ia].0[j];
    let vb = points[ib].0[j];
    assert(sorted[a] == enc_pair(va, points[ia].1));
    assert(sorted[b] == enc_pair(vb, points[ib].1));
    lemma_enc_dec(va, points[ia].1);
    lemma_enc_dec(vb, points[ib].1);
    assert(sorted_pairs_at(points, j)[a].0 == va);
    assert(sorted_pairs_at(points, j)[b].0 == vb);
    if a < b {
        assert(key_le(sorted[a], sorted[b]));
    }
    lemma_enc_key_le(va, points[ia].1, vb, points[ib].1);
    assert(point_coords_valid(points, dimensions, ia) && point_coords_valid(
        points,
        dimensions,
        ib,
    ));
    assert(f32_is_finite(va) && f32_is_finite(vb));
}

/// The summary aggregate: total weight, five per-dimension statistics, and
/// the optional typical points with their normalized weights.
///
/// Invariant of every value this crate produces: the five statistics vectors
/// share one length, and `summary_points` and `relative_weight` share one
/// length.
pub struct SampleSummary {
    pub summary_points: Vec<Vec<u32>>,
    pub relative_weight: Vec<u32>,
    pub total_weight: u32,
    pub mean: Vec<u32>,
    pub median: Vec<u32>,
    pub upper: Vec<u32>,
    pub lower: Vec<u32>,
    pub deviation: Vec<u32>,
}

impl SampleSummary {
    /// Stores the given statistics verbatim.
    pub fn new(
        total_weight: u32,
        summary_points: Vec<Vec<u32>>,
        relative_weight: Vec<u32>,
        median: Vec<u32>,
        mean: Vec<u32>,
        upper: Vec<u32>,
        lower: Vec<u32>,
        deviation: Vec<u32>,
    ) -> (r: Self)
        ensures
            r.total_weight == total_weight,
            r.summary_points == summary_points,
            r.relative_weight == relative_weight,
            r.median == median,
            r.mean == mean,
            r.upper == upper,
            r.lower == lower,
            r.deviation == deviation,
    {
        SampleSummary {
            total_weight,
            summary_points,
            relative_weight,
            median,
            mean,
            upper,
            lower,
            deviation,
        }
    }

    /// Replaces the typical points and their weights together, as a pair;
    /// every other field is kept.
    pub fn add_typical(&mut self, summary_points: Vec<Vec<u32>>, relative_weight: Vec<u32>)
        ensures
            final(self).summary_points == summary_points,
            final(self).relative_weight == relative_weight,
            final(self).total_weight == old(self).total_weight,
            final(self).mean == old(self).mean,
            final(self).median == old(self).median,
            final(self).upper == old(self).upper,
            final(self).lower == old(self).lower,
            final(self).deviation == old(self).deviation,
    {
        self.summary_points = summary_points;
        self.relative_weight = relative_weight;
    }

    /// The weighted-selection cursor: starting at `start` with accumulated
    /// weight `initial_weight`, advance while the next cumulative weight
    /// stays below `weight`, never past the last element.
    pub fn pick(
        weighted_points: &Vec<(u32, u32)>,
        weight: u64,
        start: usize,
        initial_weight: u64,
    ) -> (r: (usize, u64))
        ensures
            (r.0 as int, r.1) == pick_spec(weighted_points@, weight, start as int, initial_weight),
            start <= r.0,
            start < weighted_points@.len() ==> r.0 < weighted_points@.len(),
    {
        let mut index: usize = start;
        let mut running: u64 = initial_weight;
        loop
            invariant_except_break
                start <= index,
                index < weighted_points@.len() || index == start,
                pick_spec(weighted_points@, weight, start as int, initial_weight) == pick_spec(
                    weighted_points@,
                    weight,
                    index as int,
                    running,
                ),
            ensures
                (index as int, running) == pick_spec(
                    weighted_points@,
                    weight,
                    start as int,
                    initial_weight,
                ),
                start <= index,
                start < weighted_points@.len() ==> index < weighted_points@.len(),
            decreases weighted_points@.len() - index,
        {
            if index >= weighted_points.len() {
                break ;
            }
            if index + 1 >= weighted_points.len() {
                break ;
            }
            let w64 = widen_f32(weighted_points[index].1);
            let probe = add_f64(w64, running);
            if !f64_lt_exec(probe, weight) {
                break ;
            }
            running = add_f64(running, w64);
            index = index + 1;
        }
        (index, running)
    }

    /// Computes the statistics of a batch of owned points.
    ///
    /// Validation runs eagerly, in the fixed order of `batch_error_spec`;
    /// the first violated check aborts the call.  On success every field is
    /// pinned by `summary_exact`: the moments are the named software-float
    /// folds in batch order, and the three order statistics per dimension
    /// are read off the sorted pairs at the cursor positions of `pick_spec`.
    #[verifier::loop_isolation(false)]
    #[verifier::rlimit(60)]
    pub fn from_points(
        dimensions: usize,
        points: &Vec<(Vec<u32>, u32)>,
        lower_fraction: u64,
        upper_fraction: u64,
    ) -> (r: Result<SampleSummary, SummaryError>)
        requires
            forall|i: int| 0 <= i < points@.len() ==> #[trigger] points@[i].0@.len() >= dimensions,
        ensures
            summary_result(
                r,
                dimensions as int,
                owned_batch(points@),
                lower_fraction,
                upper_fraction,
            ),
    {
        let ghost dv = owned_batch(points@);
        let n = points.len();
        if n == 0 {
            return Err(SummaryError::EmptyBatch);
        }
        if !f64_lt_exec(lower_fraction, HALF) {
            return Err(SummaryError::InvalidLowerFraction);
        }
        if !f64_lt_exec(HALF, upper_fraction) {
            return Err(SummaryError::InvalidUpperFraction);
        }
        if dimensions == 0 {
            return Err(SummaryError::ZeroDimensions);
        }
        let mut i: usize = 0;
        while i < n
            invariant
                i <= n,
                forall|k: int| 0 <= k < i ==> f32_ge_zero(#[trigger] dv[k].1),
            decreases n - i,
        {
            if !f32_ge_zero_exec(points[i].1) {
                proof {
                    lemma_weight_scan_prefix(dv, i as int);
                }
                return Err(SummaryError::NegativeWeight);
            }
            i = i + 1;
        }
        proof {
            lemma_weight_scan_none(dv, 0);
        }
        let mut total: u64 = F64_POS_ZERO;
        let mut i: usize = 0;
        while i < n
            invariant
                i <= n,
                total == total_weight_spec(dv, i as int),
            decreases n - i,
        {
            total = add_f64(total, widen_f32(points[i].1));
            i = i + 1;
        }
        if !f64_lt_exec(F64_POS_ZERO, total) {
            return Err(SummaryError::NonPositiveTotalWeight);
        }
        if !f64_is_finite_exec(total) {
            return Err(SummaryError::NonFiniteTotalWeight);
        }
        let mut sum_values: Vec<u64> = Vec::new();
        let mut sum_values_sq: Vec<u64> = Vec::new();
        let mut j: usize = 0;
        while j < dimensions
            invariant
                j <= dimensions,
                sum_values@.len() == j,
                sum_values_sq@.len() == j,
                forall|t: int| 0 <= t < j ==> #[trigger] sum_values@[t] == sum_wv_spec(dv, t, 0),
                forall|t: int|
                    0 <= t < j ==> #[trigger] sum_values_sq@[t] == sum_wvv_spec(dv, t, 0),
            decreases dimensions - j,
        {
            sum_values.push(F64_POS_ZERO);
            sum_values_sq.push(F64_POS_ZERO);
            j = j + 1;
        }
        let mut i: usize = 0;
        while i < n
            invariant
                i <= n,
                sum_values@.len() == dimensions,
                sum_values_sq@.len() == dimensions,
                forall|t: int|
                    0 <= t < dimensions ==> #[trigger] sum_values@[t] == sum_wv_spec(
                        dv,
                        t,
                        i as int,
                    ),
                forall|t: int|
                    0 <= t < dimensions ==> #[trigger] sum_values_sq@[t] == sum_wvv_spec(
                        dv,
                        t,
                        i as int,
                    ),
                forall|k: int| 0 <= k < i ==> point_coords_valid(dv, dimensions as int, k),
            decreases n - i,
        {
            let w64 = widen_f32(points[i].1);
            let mut j: usize = 0;
            while j < dimensions
                invariant
                    j <= dimensions,
                    i < n,
                    sum_values@.len() == dimensions,
                    sum_values_sq@.len() == dimensions,
                    forall|t: int|
                        0 <= t < j ==> #[trigger] sum_values@[t] == sum_wv_spec(
                            dv,
                            t,
                            i as int + 1,
                        ),
                    forall|t: int|
                        j <= t < dimensions ==> #[trigger] sum_values@[t] == sum_wv_spec(
                            dv,
                            t,
                            i as int,
                        ),
                    forall|t: int|
                        0 <= t < j ==> #[trigger] sum_values_sq@[t] == sum_wvv_spec(
                            dv,
                            t,
                            i as int + 1,
                        ),
                    forall|t: int|
                        j <= t < dimensions ==> #[trigger] sum_values_sq@[t] == sum_wvv_spec(
                            dv,
                            t,
                            i as int,
                        ),
                    forall|t: int| 0 <= t < j ==> f32_is_finite(#[trigger] dv[i as int].0[t]),
                decreases dimensions - j,
            {
                let v = points[i].0[j];
                if !f32_is_finite_exec(v) {
                    proof {
                        lemma_coord_scan_prefix(dv, dimensions as int, i as int);
                        assert(!f32_is_finite(dv[i as int].0[j as int]));
                    }
                    return Err(SummaryError::NonFiniteCoordinate);
                }
                let v64 = widen_f32(v);
                let wv = mul_f64(w64, v64);
                let sv = add_f64(sum_values[j], wv);
                sum_values.set(j, sv);
                let wvv = mul_f64(wv, v64);
                let sq = add_f64(sum_values_sq[j], wvv);
                sum_values_sq.set(j, sq);
                j = j + 1;
            }
            i = i + 1;
        }
        proof {
            lemma_coord_scan_none(dv, dimensions as int, 0);
        }
        let mut mean: Vec<u32> = Vec::new();
        let mut deviation: Vec<u32> = Vec::new();
        let mut j: usize = 0;
        while j < dimensions
            invariant
                j <= dimensions,
                mean@.len() == j,
                deviation@.len() == j,
                forall|t: int| 0 <= t < j ==> #[trigger] mean@[t] == mean_spec(dv, t, total),
                forall|t: int|
                    0 <= t < j ==> #[trigger] deviation@[t] == deviation_spec(dv, t, total),
                forall|t: int| 0 <= t < j ==> f32_ge_zero(#[trigger] deviation@[t]),
            decreases dimensions - j,
        {
            mean.push(narrow_f64(div_f64(sum_values[j], total)));
            let s = sum_values[j];
            let q = sum_values_sq[j];
            let t2 = sub_f64(
                div_f64(q, total),
                div_f64(mul_f64(s, s), mul_f64(total, total)),
            );
            let clamped = if f64_lt_exec(F64_POS_ZERO, t2) {
                t2
            } else {
                F64_POS_ZERO
            };
            deviation.push(narrow_f64(sqrt_f64(clamped)));
            j = j + 1;
        }
        let lower_target = mul_f64(total, lower_fraction);
        let num = div_f64(total, TWO);
        let upper_target = mul_f64(total, upper_fraction);
        let mut median: Vec<u32> = Vec::new();
        let mut upper_vec: Vec<u32> = Vec::new();
        let mut lower_vec: Vec<u32> = Vec::new();
        let mut j: usize = 0;
        while j < dimensions
            invariant
                j <= dimensions,
                lower_vec@.len() == j,
                median@.len() == j,
                upper_vec@.len() == j,
                forall|t: int|
                    0 <= t < j ==> {
                        let y = sorted_pairs_at(dv, t);
                        let picks = order_stat_picks(
                            dv,
                            t,
                            total,
                            lower_fraction,
                            upper_fraction,
                        );
                        &&& #[trigger] lower_vec@[t] == y[picks.0.0].0
                        &&& median@[t] == y[picks.1.0].0
                        &&& upper_vec@[t] == y[picks.2.0].0
                    },
                forall|t: int|
                    0 <= t < j ==> f32_le(#[trigger] lower_vec@[t], median@[t]) && f32_le(
                        median@[t],
                        upper_vec@[t],
                    ),
            decreases dimensions - j,
        {
            let mut enc: Vec<(u64, u64)> = Vec::new();
            let mut i2: usize = 0;
            while i2 < n
                invariant
                    i2 <= n,
                    enc@.len() == i2,
                    j < dimensions,
                    forall|k: int|
                        0 <= k < i2 ==> #[trigger] enc@[k] == enc_pairs_at(dv, j as int)[k],
                decreases n - i2,
            {
                let v = points[i2].0[j];
                let k32 = f32_key_exec(v);
                let e0: u64 = (k32 as u64) * 0x1_0000_0000 + (v as u64);
                enc.push((e0, points[i2].1 as u64));
                i2 = i2 + 1;
            }
            proof {
                assert(enc@ =~= enc_pairs_at(dv, j as int));
            }
            let sorted = sort_by_key(&enc);
            let mut y: Vec<(u32, u32)> = Vec::new();
            let mut k: usize = 0;
            while k < sorted.len()
                invariant
                    k <= sorted@.len(),
                    y@.len() == k,
                    forall|t: int| 0 <= t < k ==> #[trigger] y@[t] == dec_pair(sorted@[t]),
                decreases sorted@.len() - k,
            {
                let e = sorted[k];
                y.push((((e.0 % 0x1_0000_0000) as u32), ((e.1 % 0x1_0000_0000) as u32)));
                k = k + 1;
            }
            proof {
                assert(y@ =~= sorted_pairs_at(dv, j as int));
            }
            let first = Self::pick(&y, lower_target, 0, F64_POS_ZERO);
            lower_vec.push(y[first.0].0);
            let second = Self::pick(&y, num, first.0, first.1);
            median.push(y[second.0].0);
            let third = Self::pick(&y, upper_target, second.0, second.1);
            upper_vec.push(y[third.0].0);
            proof {
                lemma_sorted_value_le(
                    dv,
                    dimensions as int,
                    j as int,
                    first.0 as int,
                    second.0 as int,
                );
                lemma_sorted_value_le(
                    dv,
                    dimensions as int,
                    j as int,
                    second.0 as int,
                    third.0 as int,
                );
            }
            j = j + 1;
        }
        let result = SampleSummary {
            summary_points: Vec::new(),
            relative_weight: Vec::new(),
            total_weight: narrow_f64(total),
            mean,
            upper: upper_vec,
            lower: lower_vec,
            median,
            deviation,
        };
        Ok(result)
    }

    /// Computes the statistics of a batch of referenced points; the shared
    /// engine of `from_points` runs on a copy, so both entry points satisfy
    /// one description.
    pub fn from_references(
        dimensions: usize,
        points: &Vec<(&Vec<u32>, u32)>,
        lower_fraction: u64,
        upper_fraction: u64,
    ) -> (r: Result<SampleSummary, SummaryError>)
        requires
            forall|i: int| 0 <= i < points@.len() ==> #[trigger] points@[i].0@.len() >= dimensions,
        ensures
            summary_result(
                r,
                dimensions as int,
                ref_batch(points@),
                lower_fraction,
                upper_fraction,
            ),
    {
        let mut owned: Vec<(Vec<u32>, u32)> = Vec::new();
        let mut i: usize = 0;
        while i < points.len()
            invariant
                i <= points@.len(),
                owned@.len() == i,
                forall|k: int|
                    0 <= k < i ==> #[trigger] owned@[k].0@ == points@[k].0@ && owned@[k].1
                        == points@[k].1,
            decreases points@.len() - i,
        {
            let src = points[i].0;
            let mut c: Vec<u32> = Vec::new();
            let mut j: usize = 0;
            while j < src.len()
                invariant
                    j <= src@.len(),
                    c@.len() == j,
                    i < points@.len(),
                    src@ == points@[i as int].0@,
                    forall|t: int| 0 <= t < j ==> #[trigger] c@[t] == src@[t],
                decreases src@.len() - j,
            {
                c.push(src[j]);
                j = j + 1;
            }
            proof {
                assert(c@ =~= points@[i as int].0@);
            }
            owned.push((c, points[i].1));
            i = i + 1;
        }
        proof {
            assert(owned_batch(owned@) =~= ref_batch(points@));
        }
        Self::from_points(dimensions, &owned, lower_fraction, upper_fraction)
    }
}

} // verus!
