use samplesummary::config::{HALF, LOWER_FRACTION, TWO, UPPER_FRACTION};
use samplesummary::errors::SummaryError;
use samplesummary::summary::SampleSummary;
use samplesummary::typical::{attach_centers, cluster_cap, Center};

fn b32(x: f32) -> u32 {
    x.to_bits()
}

fn b64(x: f64) -> u64 {
    x.to_bits()
}

fn point(coords: &[f32], weight: f32) -> (Vec<u32>, u32) {
    (coords.iter().map(|c| c.to_bits()).collect(), weight.to_bits())
}

fn stats(
    dimensions: usize,
    batch: &[(&[f32], f32)],
    lower: f64,
    upper: f64,
) -> Result<SampleSummary, SummaryError> {
    let points: Vec<(Vec<u32>, u32)> = batch.iter().map(|(c, w)| point(c, *w)).collect();
    SampleSummary::from_points(dimensions, &points, b64(lower), b64(upper))
}

#[test]
fn policy_constants_are_the_documented_values() {
    assert_eq!(LOWER_FRACTION, 0.1f64.to_bits());
    assert_eq!(UPPER_FRACTION, 0.9f64.to_bits());
    assert_eq!(HALF, 0.5f64.to_bits());
    assert_eq!(TWO, 2.0f64.to_bits());
}

#[test]
fn concrete_two_point_scenario() {
    let s = stats(1, &[(&[0.0], 1.0), (&[10.0], 1.0)], 0.1, 0.9).unwrap();
    assert_eq!(f32::from_bits(s.total_weight), 2.0);
    assert_eq!(f32::from_bits(s.mean[0]), 5.0);
    assert_eq!(f32::from_bits(s.deviation[0]), 5.0);
    assert_eq!(f32::from_bits(s.lower[0]), 0.0);
    assert_eq!(f32::from_bits(s.median[0]), 0.0);
    assert_eq!(f32::from_bits(s.upper[0]), 10.0);
    assert!(s.summary_points.is_empty());
    assert!(s.relative_weight.is_empty());
}

#[test]
fn deviation_is_zero_for_identical_values() {
    let s = stats(2, &[(&[3.5, -7.25], 1.0), (&[3.5, -7.25], 2.0)], 0.1, 0.9).unwrap();
    for j in 0..2 {
        let d = f32::from_bits(s.deviation[j]);
        assert!(d >= 0.0);
        assert_eq!(d, 0.0);
    }
}

#[test]
fn deviation_is_nonnegative_for_skewed_weights() {
    let s = stats(
        1,
        &[(&[1.0e-3], 0.25), (&[1.0e-3 + 1.0e-9], 1.5), (&[1.0e-3], 0.25)],
        0.1,
        0.9,
    )
    .unwrap();
    assert!(f32::from_bits(s.deviation[0]) >= 0.0);
}

#[test]
fn weighted_mean_matches_weighted_sum() {
    let batch: [(&[f32], f32); 2] = [(&[2.0], 1.0), (&[4.0], 3.0)];
    let s = stats(1, &batch, 0.1, 0.9).unwrap();
    let total = f32::from_bits(s.total_weight);
    assert_eq!(total, 4.0);
    let mean = f32::from_bits(s.mean[0]);
    assert_eq!(mean, 3.5);
    let weighted_sum: f32 = batch.iter().map(|(c, w)| c[0] * w).sum();
    assert!((mean * total - weighted_sum).abs() < 1.0e-5);
}

#[test]
fn order_statistics_are_ordered() {
    let s = stats(
        2,
        &[
            (&[5.0, -1.0], 1.0),
            (&[-3.0, 2.0], 2.0),
            (&[9.0, 0.5], 0.5),
            (&[1.0, -4.0], 1.5),
        ],
        0.2,
        0.8,
    )
    .unwrap();
    for j in 0..2 {
        assert!(f32::from_bits(s.lower[j]) <= f32::from_bits(s.median[j]));
        assert!(f32::from_bits(s.median[j]) <= f32::from_bits(s.upper[j]));
    }
}

#[test]
fn cursor_never_advances_past_the_last_element() {
    // One dominant heavy weight at the end of the sorted order: the upper
    // target is far beyond the accumulated weight, yet the cursor stops at
    // the last element.
    let s = stats(1, &[(&[1.0], 0.125), (&[2.0], 100.0)], 0.1, 0.9).unwrap();
    assert_eq!(f32::from_bits(s.upper[0]), 2.0);
}

#[test]
fn pick_resolves_the_concrete_targets() {
    let y: Vec<(u32, u32)> = vec![(b32(0.0), b32(1.0)), (b32(10.0), b32(1.0))];
    let first = SampleSummary::pick(&y, b64(0.2), 0, b64(0.0));
    assert_eq!(first.0, 0);
    assert_eq!(f64::from_bits(first.1), 0.0);
    let second = SampleSummary::pick(&y, b64(1.0), first.0, first.1);
    assert_eq!(second.0, 0);
    let third = SampleSummary::pick(&y, b64(1.8), second.0, second.1);
    assert_eq!(third.0, 1);
    assert_eq!(f64::from_bits(third.1), 1.0);
}

#[test]
fn empty_batch_is_rejected() {
    let r = stats(1, &[], 0.1, 0.9);
    assert_eq!(r.err(), Some(SummaryError::EmptyBatch));
}

#[test]
fn lower_fraction_at_half_is_rejected() {
    let r = stats(1, &[(&[1.0], 1.0)], 0.5, 0.9);
    assert_eq!(r.err(), Some(SummaryError::InvalidLowerFraction));
}

#[test]
fn nan_lower_fraction_is_rejected() {
    let points = vec![point(&[1.0], 1.0)];
    let r = SampleSummary::from_points(1, &points, f64::NAN.to_bits(), b64(0.9));
    assert_eq!(r.err(), Some(SummaryError::InvalidLowerFraction));
}

#[test]
fn upper_fraction_at_half_is_rejected() {
    let r = stats(1, &[(&[1.0], 1.0)], 0.1, 0.5);
    assert_eq!(r.err(), Some(SummaryError::InvalidUpperFraction));
}

#[test]
fn zero_dimensions_are_rejected() {
    let r = stats(0, &[(&[1.0], 1.0)], 0.1, 0.9);
    assert_eq!(r.err(), Some(SummaryError::ZeroDimensions));
}

#[test]
fn negative_weight_is_rejected() {
    let r = stats(1, &[(&[1.0], 1.0), (&[2.0], -0.5)], 0.1, 0.9);
    assert_eq!(r.err(), Some(SummaryError::NegativeWeight));
}

#[test]
fn nan_coordinate_is_rejected() {
    let points = vec![point(&[1.0], 1.0), (vec![f32::NAN.to_bits()], b32(1.0))];
    let r = SampleSummary::from_points(1, &points, b64(0.1), b64(0.9));
    assert_eq!(r.err(), Some(SummaryError::NonFiniteCoordinate));
}

#[test]
fn infinite_coordinate_is_rejected() {
    let r = stats(1, &[(&[f32::INFINITY], 1.0)], 0.1, 0.9);
    assert_eq!(r.err(), Some(SummaryError::NonFiniteCoordinate));
}

#[test]
fn all_zero_weights_are_rejected() {
    let r = stats(1, &[(&[1.0], 0.0), (&[2.0], 0.0)], 0.1, 0.9);
    assert_eq!(r.err(), Some(SummaryError::NonPositiveTotalWeight));
}

#[test]
fn infinite_total_weight_is_rejected() {
    let r = stats(1, &[(&[1.0], f32::INFINITY)], 0.1, 0.9);
    assert_eq!(r.err(), Some(SummaryError::NonFiniteTotalWeight));
}

#[test]
fn error_messages_describe_each_check() {
    assert_eq!(SummaryError::EmptyBatch.message(), "cannot be empty list");
    assert_eq!(
        SummaryError::NegativeWeight.message(),
        "point weights have to be non-negative"
    );
    assert_eq!(
        SummaryError::NonPositiveTotalWeight.message(),
        "weights cannot be all zero"
    );
}

#[test]
fn references_and_owned_points_agree() {
    let a: Vec<u32> = vec![b32(5.0), b32(-1.0)];
    let b: Vec<u32> = vec![b32(-3.0), b32(2.0)];
    let refs: Vec<(&Vec<u32>, u32)> = vec![(&a, b32(1.0)), (&b, b32(2.0))];
    let owned: Vec<(Vec<u32>, u32)> = vec![(a.clone(), b32(1.0)), (b.clone(), b32(2.0))];
    let r1 = SampleSummary::from_references(2, &refs, b64(0.1), b64(0.9)).unwrap();
    let r2 = SampleSummary::from_points(2, &owned, b64(0.1), b64(0.9)).unwrap();
    assert_eq!(r1.total_weight, r2.total_weight);
    assert_eq!(r1.mean, r2.mean);
    assert_eq!(r1.median, r2.median);
    assert_eq!(r1.lower, r2.lower);
    assert_eq!(r1.upper, r2.upper);
    assert_eq!(r1.deviation, r2.deviation);
}

#[test]
fn cluster_cap_is_the_capped_minimum() {
    assert_eq!(cluster_cap(3, 100), 15);
    assert_eq!(cluster_cap(3, 7), 7);
    assert_eq!(cluster_cap(1, 5), 5);
    assert_eq!(cluster_cap(2, 10), 10);
}

#[test]
fn typical_points_are_sorted_and_normalized() {
    let mut s = stats(1, &[(&[0.0], 1.0), (&[10.0], 1.0)], 0.1, 0.9).unwrap();
    let centers = vec![
        Center { representative_candidates: vec![vec![b32(1.0)]], weight: b64(1.0) },
        Center { representative_candidates: vec![vec![b32(2.0)]], weight: b64(3.0) },
    ];
    attach_centers(&mut s, &centers);
    assert_eq!(s.summary_points.len(), 2);
    assert_eq!(s.relative_weight.len(), 2);
    assert_eq!(f32::from_bits(s.summary_points[0][0]), 2.0);
    assert_eq!(f32::from_bits(s.summary_points[1][0]), 1.0);
    assert_eq!(f32::from_bits(s.relative_weight[0]), 0.75);
    assert_eq!(f32::from_bits(s.relative_weight[1]), 0.25);
    let sum: f32 = s.relative_weight.iter().map(|w| f32::from_bits(*w)).sum();
    assert!((sum - 1.0).abs() < 1.0e-6);
    assert!(s.relative_weight.iter().all(|w| f32::from_bits(*w) >= 0.0));
    // The statistics fields are untouched by the extension.
    assert_eq!(f32::from_bits(s.mean[0]), 5.0);
}

#[test]
fn equal_weights_keep_input_order() {
    let mut s = stats(1, &[(&[0.0], 1.0), (&[10.0], 1.0)], 0.1, 0.9).unwrap();
    let centers = vec![
        Center { representative_candidates: vec![vec![b32(1.0)]], weight: b64(2.0) },
        Center { representative_candidates: vec![vec![b32(2.0)]], weight: b64(2.0) },
    ];
    attach_centers(&mut s, &centers);
    assert_eq!(f32::from_bits(s.summary_points[0][0]), 1.0);
    assert_eq!(f32::from_bits(s.summary_points[1][0]), 2.0);
    assert_eq!(f32::from_bits(s.relative_weight[0]), 0.5);
}

#[test]
fn attaching_no_centers_leaves_the_lists_empty() {
    let mut s = stats(1, &[(&[0.0], 1.0), (&[10.0], 1.0)], 0.1, 0.9).unwrap();
    let centers: Vec<Center> = Vec::new();
    attach_centers(&mut s, &centers);
    assert!(s.summary_points.is_empty());
    assert!(s.relative_weight.is_empty());
}

#[test]
fn summary_without_clustering_keeps_statistics_only() {
    // A skipped clustering pass means the summary stays exactly as built:
    // empty typical points, populated statistics.
    let s = stats(3, &[(&[1.0, 2.0, 3.0], 2.0)], 0.1, 0.9).unwrap();
    assert!(s.summary_points.is_empty());
    assert!(s.relative_weight.is_empty());
    assert_eq!(s.mean.len(), 3);
    assert_eq!(s.median.len(), 3);
    assert_eq!(s.lower.len(), 3);
    assert_eq!(s.upper.len(), 3);
    assert_eq!(s.deviation.len(), 3);
}

#[test]
fn new_stores_fields_verbatim_and_add_typical_replaces_the_pair() {
    let mut s = SampleSummary::new(
        b32(4.0),
        Vec::new(),
        Vec::new(),
        vec![b32(1.0)],
        vec![b32(2.0)],
        vec![b32(3.0)],
        vec![b32(0.5)],
        vec![b32(0.25)],
    );
    assert_eq!(f32::from_bits(s.total_weight), 4.0);
    assert_eq!(f32::from_bits(s.median[0]), 1.0);
    assert_eq!(f32::from_bits(s.mean[0]), 2.0);
    assert_eq!(f32::from_bits(s.upper[0]), 3.0);
    assert_eq!(f32::from_bits(s.lower[0]), 0.5);
    assert_eq!(f32::from_bits(s.deviation[0]), 0.25);
    s.add_typical(vec![vec![b32(7.0)]], vec![b32(1.0)]);
    assert_eq!(s.summary_points.len(), 1);
    assert_eq!(s.relative_weight.len(), 1);
    assert_eq!(f32::from_bits(s.mean[0]), 2.0);
}

#[test]
fn nan_weight_fails_the_weight_check() {
    // NaN is not >= 0, and the per-point weight scan runs before the total
    // weight is ever examined.
    let points = vec![(vec![b32(1.0)], f32::NAN.to_bits())];
    let r = SampleSummary::from_points(1, &points, b64(0.1), b64(0.9));
    assert_eq!(r.err(), Some(SummaryError::NegativeWeight));
}

#[test]
fn negative_weight_is_reported_before_the_total_weight() {
    // The batch also has a non-positive total, but the weight scan comes
    // first in the validation order.
    let r = stats(1, &[(&[1.0], -1.0)], 0.1, 0.9);
    assert_eq!(r.err(), Some(SummaryError::NegativeWeight));
}

#[test]
fn weight_check_precedes_coordinate_check_across_points() {
    // A NaN coordinate in an earlier point does not mask a negative weight
    // in a later point: all weights are scanned before any coordinate.
    let r = stats(1, &[(&[f32::NAN], 1.0), (&[1.0], -2.0)], 0.1, 0.9);
    assert_eq!(r.err(), Some(SummaryError::NegativeWeight));
}

#[test]
fn infinite_lower_fraction_selects_the_smallest_value() {
    // -inf is below one half, so validation passes; the lower target is
    // -inf and the cursor never advances.
    let s = stats(1, &[(&[4.0], 1.0), (&[-2.0], 1.0)], f64::NEG_INFINITY, 0.9).unwrap();
    assert_eq!(f32::from_bits(s.lower[0]), -2.0);
}

#[test]
fn trailing_coordinates_beyond_the_dimension_count_are_ignored() {
    let s = stats(1, &[(&[1.0, 100.0], 1.0), (&[3.0, -50.0], 1.0)], 0.1, 0.9).unwrap();
    assert_eq!(s.mean.len(), 1);
    assert_eq!(f32::from_bits(s.mean[0]), 2.0);
}
