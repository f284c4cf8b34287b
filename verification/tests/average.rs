//! The Average Reducer: percentile trimming, range bounds, the degenerate
//! fallback, and the end-to-end metering scenarios.

use auto_exposure::average::average;
use auto_exposure::histogram::{Histogram, Sample};
use auto_exposure::FP_ONE;

const MIN: i64 = -8 * FP_ONE;
const MAX: i64 = 8 * FP_ONE;

fn histogram_of(values: &[(i64, u32)]) -> Histogram {
    let samples: Vec<Sample> =
        values.iter().map(|&(log_lum, weight)| Sample { log_lum, weight }).collect();
    let mut h = Histogram::new();
    h.accumulate(&samples, MIN, MAX);
    h
}

#[test]
fn uniform_mid_gray_scenario() {
    // A uniform mid-gray image: every pixel at log-luminance -1 stop, with
    // min=-8, max=8, low=60, high=95. The histogram concentrates in one
    // bucket and the reducer returns that bucket's center value.
    let values: Vec<(i64, u32)> = vec![(-FP_ONE, 1); 100];
    let h = histogram_of(&values);
    assert_eq!(h.counts[111], 100);
    assert_eq!(h.counts.iter().filter(|&&c| c > 0).count(), 1);
    let r = average(&h, MIN, MAX, 60, 95);
    // Bucket 111's center: min + 223 * (max - min) / 510.
    assert_eq!(r, -1029);
}

#[test]
fn masked_bright_half_meters_only_the_dark_half() {
    // Half the image bright, half dark, with a metering mask weighting the
    // bright half to zero: the metered luminance reflects only the dark
    // half's distribution.
    let mut values: Vec<(i64, u32)> = vec![(2 * FP_ONE, 0); 10];
    values.extend(vec![(-2 * FP_ONE, 1); 10]);
    let masked = average(&histogram_of(&values), MIN, MAX, 60, 95);
    let dark_only = average(
        &histogram_of(&vec![(-2 * FP_ONE, 1); 10]),
        MIN,
        MAX,
        60,
        95,
    );
    assert_eq!(masked, dark_only);
    assert_eq!(masked, -2057);
}

#[test]
fn zero_area_viewport_falls_back_to_midpoint() {
    // A zero-area viewport contributes no samples: the reducer returns
    // (min + max) / 2 without error.
    let h = Histogram::new();
    assert_eq!(average(&h, MIN, MAX, 60, 95), (MIN + MAX) / 2);
    let lo: i64 = -6 * FP_ONE;
    let hi: i64 = 2 * FP_ONE;
    assert_eq!(average(&h, lo, hi, 60, 95), lo + (hi - lo) / 2);
}

#[test]
fn result_stays_within_the_configured_range() {
    let extremes = histogram_of(&[(MIN - FP_ONE, 50), (MAX + FP_ONE, 50)]);
    let r = average(&extremes, MIN, MAX, 0, 100);
    assert!(MIN <= r && r <= MAX);
    let all_top = histogram_of(&[(MAX, 10)]);
    let r_top = average(&all_top, MIN, MAX, 0, 100);
    assert!(MIN <= r_top && r_top <= MAX);
    assert_eq!(r_top, MAX);
}

#[test]
fn tighter_high_percentile_discards_a_bright_outlier() {
    // Nine dark samples and one bright outlier. With no trimming the
    // outlier pulls the mean up; trimming the top ten percent removes its
    // influence entirely and the mean is the dark bucket's center.
    let mut values: Vec<(i64, u32)> = vec![(-2 * FP_ONE, 1); 9];
    values.push((2 * FP_ONE, 1));
    let h = histogram_of(&values);
    assert_eq!(average(&h, MIN, MAX, 0, 100), -1646);
    assert_eq!(average(&h, MIN, MAX, 0, 90), -2057);
}

#[test]
fn higher_low_percentile_discards_a_dark_outlier() {
    let mut values: Vec<(i64, u32)> = vec![(2 * FP_ONE, 1); 9];
    values.push((-2 * FP_ONE, 1));
    let h = histogram_of(&values);
    let untrimmed = average(&h, MIN, MAX, 0, 100);
    let trimmed = average(&h, MIN, MAX, 10, 100);
    assert_eq!(trimmed, 2056);
    assert!(untrimmed < trimmed);
}

#[test]
fn trim_window_that_keeps_nothing_falls_back_to_midpoint() {
    // One sample: the cuts 60 and 95 both floor to zero, trimming away
    // everything; the reducer falls back to the midpoint.
    let h = histogram_of(&[(-FP_ONE, 1)]);
    assert_eq!(average(&h, MIN, MAX, 60, 95), (MIN + MAX) / 2);
}
