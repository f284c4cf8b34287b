//! Reducing a histogram to one representative log-luminance.
//!
//! The reducer discards a configured fraction of the darkest and brightest
//! samples and takes the weighted mean of the remainder, expressed back in
//! log-luminance units. Trimming works on the cumulative count: of each
//! bucket, exactly the part of its count that falls between the low and high
//! cut of the cumulative distribution is included, so a bucket straddling a
//! cut contributes proportionally.

use vstd::prelude::*;
use crate::fixed::LOG_BOUND;
use crate::fixed::spec_clamp;
use crate::fixed::lemma_div_below_multiple;
use crate::fixed::lemma_div_nonneg;
use crate::fixed::lemma_div_ordered;
use crate::histogram::Histogram;
use crate::histogram::spec_sum;

verus! {

/// The cumulative count: total mass of buckets `0 .. b`.
pub open spec fn spec_cum(counts: Seq<int>, b: int) -> int {
    spec_sum(counts.subrange(0, b))
}

/// One more bucket extends the cumulative count by that bucket's mass.
pub proof fn lemma_cum_step(counts: Seq<int>, b: int)
    requires
        0 <= b < counts.len(),
    ensures
        spec_cum(counts, b + 1) == spec_cum(counts, b) + counts[b],
{
    assert(counts.subrange(0, b + 1).drop_last() =~= counts.subrange(0, b));
}

/// With nonnegative buckets the cumulative count is nonnegative and grows
/// with the bucket index.
pub proof fn lemma_cum_monotone(counts: Seq<int>, a: int, b: int)
    requires
        forall|j: int| 0 <= j < counts.len() ==> 0 <= counts[j],
        0 <= a <= b <= counts.len(),
    ensures
        0 <= spec_cum(counts, a) <= spec_cum(counts, b),
    decreases b - a,
{
    if a == b {
        crate::histogram::lemma_sum_nonneg(counts.subrange(0, a));
    } else {
        lemma_cum_monotone(counts, a, b - 1);
        lemma_cum_step(counts, b - 1);
    }
}

/// The number of darkest samples excluded from the average.
pub open spec fn spec_low_cut(total: int, low_percent: int) -> int {
    total * low_percent / 100
}

/// The cumulative count above which the brightest samples are excluded.
pub open spec fn spec_high_cut(total: int, high_percent: int) -> int {
    total * high_percent / 100
}

/// The part of bucket `b`'s count that the trim window `[lo, hi]` keeps:
/// the growth of the window-clamped cumulative count across the bucket.
pub open spec fn spec_included(counts: Seq<int>, b: int, lo: int, hi: int) -> int {
    spec_clamp(spec_cum(counts, b + 1), lo, hi) - spec_clamp(spec_cum(counts, b), lo, hi)
}

/// The log-luminance offset above `min` of bucket `b`'s center value. The
/// topmost bucket catches exactly the upper edge of the range, so its center
/// is the range itself.
pub open spec fn spec_center_off(b: int, range: int) -> int {
    if b == 255 {
        range
    } else {
        (2 * b + 1) * range / 510
    }
}

/// A bucket's center offset lies within the configured range.
pub proof fn lemma_center_off_in_range(b: int, range: int)
    requires
        0 <= b < 256,
        0 < range,
    ensures
        0 <= spec_center_off(b, range) <= range,
{
    if b < 255 {
        lemma_div_nonneg((2 * b + 1) * range, 510);
        vstd::arithmetic::mul::lemma_mul_inequality(2 * b + 1, 510, range);
        lemma_div_below_multiple((2 * b + 1) * range, range, 510);
    }
}

/// The included mass of buckets `0 .. b`, each weighted by its center offset.
pub open spec fn spec_weighted_off(counts: Seq<int>, b: int, lo: int, hi: int, range: int) -> int
    decreases b,
{
    if b <= 0 {
        0
    } else {
        spec_weighted_off(counts, b - 1, lo, hi, range) + spec_center_off(b - 1, range)
            * spec_included(counts, b - 1, lo, hi)
    }
}

/// The trimmed weighted mean log-luminance of a histogram, or the midpoint of
/// the range when trimming leaves nothing (in particular for an empty
/// histogram).
pub open spec fn spec_average(counts: Seq<int>, min: int, max: int, low_percent: int, high_percent: int) -> int {
    let total: int = spec_cum(counts, 256);
    let lo: int = spec_low_cut(total, low_percent);
    let hi: int = spec_high_cut(total, high_percent);
    if hi - lo <= 0 {
        min + (max - min) / 2
    } else {
        min + spec_weighted_off(counts, 256, lo, hi, max - min) / (hi - lo)
    }
}

/// Narrowing the trim window never lets any bucket contribute more:
/// raising the low cut or lowering the high cut can only shrink each
/// bucket's included mass, extreme buckets' in particular.
pub proof fn lemma_trimming_monotonic(
    counts: Seq<int>,
    b: int,
    lo1: int,
    hi1: int,
    lo2: int,
    hi2: int,
)
    requires
        forall|j: int| 0 <= j < counts.len() ==> 0 <= counts[j],
        0 <= b < counts.len(),
        lo1 <= lo2 <= hi2 <= hi1,
    ensures
        0 <= spec_included(counts, b, lo2, hi2) <= spec_included(counts, b, lo1, hi1),
{
    lemma_cum_monotone(counts, b, b + 1);
}

/// Raising `low_percent` or lowering `high_percent` never lets any bucket
/// contribute more to the average: each bucket's included mass under the
/// narrower percentile pair is bounded by its mass under the wider one.
pub proof fn lemma_percentile_trimming_monotonic(
    counts: Seq<int>,
    b: int,
    low1: int,
    low2: int,
    high1: int,
    high2: int,
)
    requires
        forall|j: int| 0 <= j < counts.len() ==> 0 <= counts[j],
        0 <= b < counts.len(),
        0 <= low1 <= low2 <= high2 <= high1,
    ensures
        0 <= spec_included(
            counts,
            b,
            spec_low_cut(spec_cum(counts, counts.len() as int), low2),
            spec_high_cut(spec_cum(counts, counts.len() as int), high2),
        ) <= spec_included(
            counts,
            b,
            spec_low_cut(spec_cum(counts, counts.len() as int), low1),
            spec_high_cut(spec_cum(counts, counts.len() as int), high1),
        ),
{
    let total: int = spec_cum(counts, counts.len() as int);
    lemma_cum_monotone(counts, 0, counts.len() as int);
    vstd::arithmetic::mul::lemma_mul_inequality(low1, low2, total);
    vstd::arithmetic::mul::lemma_mul_inequality(low2, high2, total);
    vstd::arithmetic::mul::lemma_mul_inequality(high2, high1, total);
    vstd::arithmetic::mul::lemma_mul_is_commutative(low1, total);
    vstd::arithmetic::mul::lemma_mul_is_commutative(low2, total);
    vstd::arithmetic::mul::lemma_mul_is_commutative(high1, total);
    vstd::arithmetic::mul::lemma_mul_is_commutative(high2, total);
    lemma_div_ordered(total * low1, total * low2, 100);
    lemma_div_ordered(total * low2, total * high2, 100);
    lemma_div_ordered(total * high2, total * high1, 100);
    lemma_trimming_monotonic(
        counts,
        b,
        spec_low_cut(total, low1),
        spec_high_cut(total, high1),
        spec_low_cut(total, low2),
        spec_high_cut(total, high2),
    );
}

/// The simpler untrimmed metering mode is the degenerate special case of
/// percentile trimming: with `low_percent = 0` and `high_percent = 100`
/// every bucket's whole count is included in the average.
pub proof fn lemma_no_trim_includes_everything(counts: Seq<int>, b: int)
    requires
        forall|j: int| 0 <= j < counts.len() ==> 0 <= counts[j],
        0 <= b < counts.len(),
    ensures
        spec_included(
            counts,
            b,
            spec_low_cut(spec_cum(counts, counts.len() as int), 0),
            spec_high_cut(spec_cum(counts, counts.len() as int), 100),
        ) == counts[b],
{
    let total: int = spec_cum(counts, counts.len() as int);
    lemma_cum_monotone(counts, 0, counts.len() as int);
    vstd::arithmetic::mul::lemma_mul_by_zero_is_zero(total);
    vstd::arithmetic::div_mod::lemma_div_by_multiple(total, 100);
    vstd::arithmetic::div_mod::lemma_div_of0(100);
    lemma_cum_monotone(counts, 0, b);
    lemma_cum_monotone(counts, b, counts.len() as int);
    lemma_cum_monotone(counts, 0, b + 1);
    lemma_cum_monotone(counts, b + 1, counts.len() as int);
    lemma_cum_step(counts, b);
}

/// Computes bucket `b`'s center offset above the range's lower end.
fn center_offset(b: usize, range: u64) -> (r: u64)
    requires
        b < 256,
        0 < range <= 2 * LOG_BOUND,
    ensures
        r == spec_center_off(b as int, range as int),
        r <= range,
{
    proof {
        lemma_center_off_in_range(b as int, range as int);
    }
    if b == 255 {
        range
    } else {
        (2 * b as u64 + 1) * range / 510
    }
}

/// Reduces a completed histogram to its trimmed weighted mean log-luminance.
///
/// The darkest `low_percent` and the brightest `100 - high_percent` percent
/// of the accumulated mass are excluded, each straddling bucket contributing
/// proportionally; the remainder is averaged by bucket center. A degenerate
/// histogram — no samples at all, or a trim window that keeps nothing —
/// yields the midpoint of `[min, max]`. The result always lies in
/// `[min, max]`.
pub fn average(h: &Histogram, min: i64, max: i64, low_percent: u32, high_percent: u32) -> (r: i64)
    requires
        h.wf(),
        -LOG_BOUND <= min < max <= LOG_BOUND,
        low_percent < high_percent <= 100,
        h.total() <= u32::MAX,
    ensures
        r == spec_average(
            h.counts_int(),
            min as int,
            max as int,
            low_percent as int,
            high_percent as int,
        ),
        min <= r <= max,
        h.total() == 0 ==> r == min + (max - min) / 2,
{
    let ghost counts: Seq<int> = h.counts_int();
    proof {
        assert(counts.subrange(0, 256) =~= counts);
        lemma_cum_monotone(counts, 0, 256);
    }
    let total: u64 = h.total_count();
    let range: u64 = (max - min) as u64;
    proof {
        vstd::arithmetic::mul::lemma_mul_upper_bound(
            total as int,
            u32::MAX as int,
            low_percent as int,
            100,
        );
        vstd::arithmetic::mul::lemma_mul_upper_bound(
            total as int,
            u32::MAX as int,
            high_percent as int,
            100,
        );
    }
    let lo: u64 = total * low_percent as u64 / 100;
    let hi: u64 = total * high_percent as u64 / 100;
    proof {
        vstd::arithmetic::mul::lemma_mul_inequality(
            low_percent as int,
            high_percent as int,
            total as int,
        );
        vstd::arithmetic::mul::lemma_mul_inequality(high_percent as int, 100, total as int);
        vstd::arithmetic::mul::lemma_mul_is_commutative(low_percent as int, total as int);
        vstd::arithmetic::mul::lemma_mul_is_commutative(high_percent as int, total as int);
        lemma_div_ordered(total as int * low_percent, total as int * high_percent, 100);
        lemma_div_ordered(total as int * high_percent, total as int * 100, 100);
        lemma_div_below_multiple(total as int * high_percent, total as int, 100);
        lemma_div_nonneg(total as int * low_percent, 100);
    }
    let midpoint: i64 = min + (range / 2) as i64;
    proof {
        lemma_div_ordered(0, range as int, 2);
        lemma_div_below_multiple(range as int, range as int, 2);
    }
    if hi <= lo {
        return midpoint;
    }
    let included: u64 = hi - lo;
    let mut cum: u64 = 0;
    let mut clamped_cum: u64 = lo;
    let mut weighted: u64 = 0;
    let mut b: usize = 0;
    while b < 256
        invariant
            h.wf(),
            counts == h.counts_int(),
            -LOG_BOUND <= min < max <= LOG_BOUND,
            range == max - min,
            b <= 256,
            0 <= lo <= hi <= total,
            total <= u32::MAX,
            total == spec_cum(counts, 256),
            cum == spec_cum(counts, b as int),
            cum <= total,
            clamped_cum == spec_clamp(cum as int, lo as int, hi as int),
            weighted == spec_weighted_off(counts, b as int, lo as int, hi as int, range as int),
            weighted <= range * (clamped_cum - lo),
        decreases 256 - b,
    {
        let c: u32 = h.counts[b];
        proof {
            lemma_cum_step(counts, b as int);
            lemma_cum_monotone(counts, b as int + 1, 256);
        }
        let cum_next: u64 = cum + c as u64;
        let clamped_next: u64 = if cum_next < lo {
            lo
        } else if cum_next > hi {
            hi
        } else {
            cum_next
        };
        let inc: u64 = clamped_next - clamped_cum;
        let off: u64 = center_offset(b, range);
        proof {
            vstd::arithmetic::mul::lemma_mul_inequality(
                off as int,
                range as int,
                inc as int,
            );
            vstd::arithmetic::mul::lemma_mul_is_commutative(off as int, inc as int);
            vstd::arithmetic::mul::lemma_mul_is_commutative(range as int, inc as int);
            vstd::arithmetic::mul::lemma_mul_is_distributive_add(
                range as int,
                clamped_cum as int - lo as int,
                inc as int,
            );
            vstd::arithmetic::mul::lemma_mul_upper_bound(
                range as int,
                2 * LOG_BOUND as int,
                clamped_next as int - lo as int,
                u32::MAX as int,
            );
        }
        weighted = weighted + off * inc;
        cum = cum_next;
        clamped_cum = clamped_next;
        b = b + 1;
    }
    proof {
        lemma_div_nonneg(weighted as int, included as int);
        lemma_div_below_multiple(weighted as int, range as int, included as int);
    }
    min + (weighted / included) as i64
}

} // verus!
