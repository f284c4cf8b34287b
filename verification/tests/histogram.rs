//! Histogram building: bucket mapping, weighted accumulation, conservation
//! of mass, order independence, and the per-frame reset.

use auto_exposure::histogram::{bucket_for, Histogram, Sample};
use auto_exposure::FP_ONE;

const MIN: i64 = -8 * FP_ONE;
const MAX: i64 = 8 * FP_ONE;

fn samples_of(values: &[(i64, u32)]) -> Vec<Sample> {
    values.iter().map(|&(log_lum, weight)| Sample { log_lum, weight }).collect()
}

#[test]
fn bucket_mapping_mid_gray() {
    // log2(0.5) = -1 stop: one bucket just below the middle of [-8, 8].
    assert_eq!(bucket_for(-FP_ONE, MIN, MAX), 111);
}

#[test]
fn bucket_mapping_edges() {
    assert_eq!(bucket_for(MIN, MIN, MAX), 0);
    assert_eq!(bucket_for(MAX, MIN, MAX), 255);
    // Values outside the range clamp into the extreme buckets.
    assert_eq!(bucket_for(MIN - 5000, MIN, MAX), 0);
    assert_eq!(bucket_for(MAX + 999_999, MIN, MAX), 255);
}

#[test]
fn bucket_mapping_dark_and_bright() {
    assert_eq!(bucket_for(-2 * FP_ONE, MIN, MAX), 95);
    assert_eq!(bucket_for(2 * FP_ONE, MIN, MAX), 159);
}

#[test]
fn histogram_starts_zeroed() {
    let h = Histogram::new();
    assert_eq!(h.counts.len(), 256);
    assert!(h.counts.iter().all(|&c| c == 0));
}

#[test]
fn accumulate_counts_every_weighted_sample() {
    let mut h = Histogram::new();
    let samples = samples_of(&[(-FP_ONE, 1), (-FP_ONE, 2), (2 * FP_ONE, 4), (MIN - 100, 8)]);
    h.accumulate(&samples, MIN, MAX);
    assert_eq!(h.counts[111], 3);
    assert_eq!(h.counts[159], 4);
    assert_eq!(h.counts[0], 8);
    // Conservation of mass: the buckets together hold the total weight.
    let total: u64 = h.counts.iter().map(|&c| c as u64).sum();
    assert_eq!(total, 15);
    assert_eq!(h.total_count(), 15);
}

#[test]
fn accumulation_is_order_independent() {
    let forward = samples_of(&[(-FP_ONE, 1), (0, 2), (FP_ONE, 3), (MAX, 4)]);
    let mut backward = forward.clone();
    backward.reverse();
    let mut h1 = Histogram::new();
    let mut h2 = Histogram::new();
    h1.accumulate(&forward, MIN, MAX);
    h2.accumulate(&backward, MIN, MAX);
    assert_eq!(h1.counts, h2.counts);
}

#[test]
fn accumulation_adds_across_runs() {
    let mut h_split = Histogram::new();
    h_split.accumulate(&samples_of(&[(-FP_ONE, 1), (0, 2)]), MIN, MAX);
    h_split.accumulate(&samples_of(&[(FP_ONE, 3)]), MIN, MAX);
    let mut h_once = Histogram::new();
    h_once.accumulate(&samples_of(&[(-FP_ONE, 1), (0, 2), (FP_ONE, 3)]), MIN, MAX);
    assert_eq!(h_split.counts, h_once.counts);
}

#[test]
fn zero_weight_samples_leave_no_trace() {
    let mut h = Histogram::new();
    h.accumulate(&samples_of(&[(-FP_ONE, 0), (2 * FP_ONE, 0), (MAX, 0)]), MIN, MAX);
    assert!(h.counts.iter().all(|&c| c == 0));
}

#[test]
fn reset_clears_previous_frame() {
    let mut h = Histogram::new();
    h.accumulate(&samples_of(&[(-FP_ONE, 7), (FP_ONE, 9)]), MIN, MAX);
    h.reset();
    assert!(h.counts.iter().all(|&c| c == 0));
    assert_eq!(h.total_count(), 0);
}
