//! Building a log-luminance histogram from weighted pixel samples.
//!
//! Every pixel contributes its weight to exactly one of 256 buckets that
//! divide the configured log-luminance range into equal steps; values outside
//! the range are clamped into the extreme buckets. Accumulation is defined
//! per bucket, so the result is independent of the order in which samples are
//! processed.

use vstd::prelude::*;
use crate::fixed::LOG_BOUND;
use crate::fixed::clamp_fixed;
use crate::fixed::spec_clamp;
use crate::fixed::lemma_div_below_multiple;
use crate::fixed::lemma_div_nonneg;

verus! {

/// One pixel's contribution to the histogram: its log-luminance (fixed
/// point, units of `1 / FP_ONE`) and its metering weight. A weight of zero
/// removes the sample from consideration; an unmasked pixel carries weight 1
/// (or a fixed quantization of the mask value when one is sampled).
#[derive(Clone, Copy, PartialEq, Eq, Structural, Debug)]
pub struct Sample {
    /// Base-2 logarithm of the pixel's luminance, in fixed point.
    pub log_lum: i64,
    /// The sample's metering weight.
    pub weight: u32,
}

/// The bucket a log-luminance value falls into: the value is clamped into
/// `[min, max]` and the range is divided into equal steps, the topmost bucket
/// catching the upper edge.
pub open spec fn spec_bucket(log_lum: int, min: int, max: int) -> int
    recommends
        min < max,
{
    (spec_clamp(log_lum, min, max) - min) * 255 / (max - min)
}

/// Every log-luminance value lands in one of the 256 buckets.
pub proof fn lemma_bucket_in_range(log_lum: int, min: int, max: int)
    requires
        min < max,
    ensures
        0 <= spec_bucket(log_lum, min, max) < 256,
{
    let off: int = spec_clamp(log_lum, min, max) - min;
    let range: int = max - min;
    lemma_div_nonneg(off * 255, range);
    lemma_div_below_multiple(off * 255, 255, range);
}

/// Computes the bucket index for one log-luminance value.
pub fn bucket_for(log_lum: i64, min: i64, max: i64) -> (b: usize)
    requires
        -LOG_BOUND <= min < max <= LOG_BOUND,
    ensures
        b == spec_bucket(log_lum as int, min as int, max as int),
        b < 256,
{
    proof {
        lemma_bucket_in_range(log_lum as int, min as int, max as int);
    }
    let clamped = clamp_fixed(log_lum, min, max);
    let off = (clamped - min) as u64;
    let range = (max - min) as u64;
    (off * 255 / range) as usize
}

/// The total mass the given samples put into bucket `b`.
pub open spec fn spec_bucket_mass(samples: Seq<Sample>, b: int, min: int, max: int) -> int
    decreases samples.len(),
{
    if samples.len() == 0 {
        0
    } else {
        spec_bucket_mass(samples.drop_last(), b, min, max) + if spec_bucket(
            samples.last().log_lum as int,
            min,
            max,
        ) == b {
            samples.last().weight as int
        } else {
            0
        }
    }
}

/// The summed weight of all samples.
pub open spec fn spec_total_weight(samples: Seq<Sample>) -> int
    decreases samples.len(),
{
    if samples.len() == 0 {
        0
    } else {
        spec_total_weight(samples.drop_last()) + samples.last().weight
    }
}

/// The sum of a sequence of integers.
pub open spec fn spec_sum(s: Seq<int>) -> int
    decreases s.len(),
{
    if s.len() == 0 {
        0
    } else {
        spec_sum(s.drop_last()) + s.last()
    }
}

/// A bucket never holds more mass than the samples carry in total, and never
/// a negative amount.
pub proof fn lemma_bucket_mass_le_total(samples: Seq<Sample>, b: int, min: int, max: int)
    ensures
        0 <= spec_bucket_mass(samples, b, min, max) <= spec_total_weight(samples),
    decreases samples.len(),
{
    if samples.len() > 0 {
        lemma_bucket_mass_le_total(samples.drop_last(), b, min, max);
    }
}

/// A prefix of the samples carries at most the whole total weight.
pub proof fn lemma_total_weight_prefix(samples: Seq<Sample>, j: int)
    requires
        0 <= j <= samples.len(),
    ensures
        spec_total_weight(samples.subrange(0, j)) <= spec_total_weight(samples),
    decreases samples.len() - j,
{
    if j == samples.len() {
        assert(samples.subrange(0, j) =~= samples);
    } else {
        assert(samples.subrange(0, j + 1).drop_last() =~= samples.subrange(0, j));
        assert(spec_total_weight(samples.subrange(0, j + 1)) == spec_total_weight(
            samples.subrange(0, j),
        ) + samples[j].weight);
        lemma_total_weight_prefix(samples, j + 1);
    }
}

/// Every element of a sequence of nonnegative integers is bounded by the sum.
pub proof fn lemma_sum_bounds_element(s: Seq<int>, i: int)
    requires
        0 <= i < s.len(),
        forall|j: int| 0 <= j < s.len() ==> 0 <= s[j],
    ensures
        s[i] <= spec_sum(s),
        0 <= spec_sum(s),
    decreases s.len(),
{
    if s.len() > 0 {
        if i == s.len() - 1 {
            lemma_sum_nonneg(s.drop_last());
        } else {
            lemma_sum_bounds_element(s.drop_last(), i);
        }
    }
}

/// A sequence of nonnegative integers has a nonnegative sum.
pub proof fn lemma_sum_nonneg(s: Seq<int>)
    requires
        forall|j: int| 0 <= j < s.len() ==> 0 <= s[j],
    ensures
        0 <= spec_sum(s),
    decreases s.len(),
{
    if s.len() > 0 {
        lemma_sum_nonneg(s.drop_last());
    }
}

/// Raising one element of a sequence raises the sum by the same amount.
pub proof fn lemma_sum_update(s: Seq<int>, i: int, w: int)
    requires
        0 <= i < s.len(),
    ensures
        spec_sum(s.update(i, s[i] + w)) == spec_sum(s) + w,
    decreases s.len(),
{
    let t: Seq<int> = s.update(i, s[i] + w);
    if i == s.len() - 1 {
        assert(t.drop_last() =~= s.drop_last());
    } else {
        assert(t.drop_last() =~= s.drop_last().update(i, s[i] + w));
        lemma_sum_update(s.drop_last(), i, w);
    }
}

/// The 256 per-bucket masses, as a sequence.
pub open spec fn spec_mass_seq(samples: Seq<Sample>, min: int, max: int) -> Seq<int> {
    Seq::new(256, |b: int| spec_bucket_mass(samples, b, min, max))
}

/// Conservation of mass: the buckets together hold exactly the weighted
/// sample count contributed that frame.
pub proof fn lemma_histogram_mass_conserved(samples: Seq<Sample>, min: int, max: int)
    requires
        min < max,
    ensures
        spec_sum(spec_mass_seq(samples, min, max)) == spec_total_weight(samples),
    decreases samples.len(),
{
    if samples.len() == 0 {
        lemma_sum_zero_seq(spec_mass_seq(samples, min, max));
    } else {
        let s0: Seq<Sample> = samples.drop_last();
        let x: Sample = samples.last();
        let bx: int = spec_bucket(x.log_lum as int, min, max);
        lemma_bucket_in_range(x.log_lum as int, min, max);
        lemma_histogram_mass_conserved(s0, min, max);
        assert(spec_mass_seq(samples, min, max) =~= spec_mass_seq(s0, min, max).update(
            bx,
            spec_mass_seq(s0, min, max)[bx] + x.weight,
        ));
        lemma_sum_update(spec_mass_seq(s0, min, max), bx, x.weight as int);
    }
}

/// A sequence of zeros sums to zero.
pub proof fn lemma_sum_zero_seq(s: Seq<int>)
    requires
        forall|j: int| 0 <= j < s.len() ==> s[j] == 0,
    ensures
        spec_sum(s) == 0,
    decreases s.len(),
{
    if s.len() > 0 {
        lemma_sum_zero_seq(s.drop_last());
    }
}

/// Bucket masses add over concatenation of sample runs.
pub proof fn lemma_bucket_mass_concat(s1: Seq<Sample>, s2: Seq<Sample>, b: int, min: int, max: int)
    ensures
        spec_bucket_mass(s1 + s2, b, min, max) == spec_bucket_mass(s1, b, min, max)
            + spec_bucket_mass(s2, b, min, max),
    decreases s2.len(),
{
    if s2.len() == 0 {
        assert(s1 + s2 =~= s1);
    } else {
        assert((s1 + s2).drop_last() =~= s1 + s2.drop_last());
        assert((s1 + s2).last() == s2.last());
        lemma_bucket_mass_concat(s1, s2.drop_last(), b, min, max);
    }
}

/// The histogram does not depend on the order in which sample runs are
/// accumulated: two runs contribute the same mass in either order.
pub proof fn lemma_histogram_order_independent(
    s1: Seq<Sample>,
    s2: Seq<Sample>,
    b: int,
    min: int,
    max: int,
)
    ensures
        spec_bucket_mass(s1 + s2, b, min, max) == spec_bucket_mass(s2 + s1, b, min, max),
{
    lemma_bucket_mass_concat(s1, s2, b, min, max);
    lemma_bucket_mass_concat(s2, s1, b, min, max);
}

/// Samples whose metering weight is zero leave no trace in any bucket.
pub proof fn lemma_masked_out_invisible(samples: Seq<Sample>, b: int, min: int, max: int)
    requires
        forall|i: int| 0 <= i < samples.len() ==> samples[i].weight == 0,
    ensures
        spec_bucket_mass(samples, b, min, max) == 0,
    decreases samples.len(),
{
    if samples.len() > 0 {
        lemma_masked_out_invisible(samples.drop_last(), b, min, max);
    }
}

/// A fixed array of 256 bucket counters covering the configured
/// log-luminance range in equal steps.
pub struct Histogram {
    /// The per-bucket weighted sample counts.
    pub counts: Vec<u32>,
}

impl Histogram {
    /// A histogram always holds exactly 256 buckets.
    pub open spec fn wf(&self) -> bool {
        self.counts@.len() == 256
    }

    /// The count in bucket `b`, as a mathematical integer.
    pub open spec fn count(&self, b: int) -> int {
        self.counts@[b] as int
    }

    /// The counts as a sequence of mathematical integers.
    pub open spec fn counts_int(&self) -> Seq<int> {
        Seq::new(self.counts@.len(), |b: int| self.counts@[b] as int)
    }

    /// The summed count over all buckets.
    pub open spec fn total(&self) -> int {
        spec_sum(self.counts_int())
    }

    /// A fresh, zeroed histogram.
    pub fn new() -> (h: Histogram)
        ensures
            h.wf(),
            forall|b: int| 0 <= b < 256 ==> h.count(b) == 0,
    {
        let mut counts: Vec<u32> = Vec::new();
        let mut i: usize = 0;
        while i < 256
            invariant
                counts@.len() == i,
                i <= 256,
                forall|b: int| 0 <= b < i ==> counts@[b] == 0,
            decreases 256 - i,
        {
            counts.push(0);
            i = i + 1;
        }
        Histogram { counts }
    }

    /// Zeroes every bucket. The histogram must be reset at the start of each
    /// frame's accumulation, or counts would leak across frames and skew the
    /// average.
    pub fn reset(&mut self)
        requires
            old(self).wf(),
        ensures
            final(self).wf(),
            forall|b: int| 0 <= b < 256 ==> final(self).count(b) == 0,
    {
        let mut i: usize = 0;
        while i < 256
            invariant
                self.counts@.len() == 256,
                i <= 256,
                forall|b: int| 0 <= b < i ==> self.counts@[b] == 0,
            decreases 256 - i,
        {
            self.counts.set(i, 0);
            i = i + 1;
        }
    }

    /// Accumulates every sample's weight into its bucket.
    ///
    /// The result is exactly the per-bucket mass of the samples on top of
    /// what the histogram already held, however the samples were ordered.
    pub fn accumulate(&mut self, samples: &Vec<Sample>, min: i64, max: i64)
        requires
            old(self).wf(),
            -LOG_BOUND <= min < max <= LOG_BOUND,
            old(self).total() + spec_total_weight(samples@) <= u32::MAX,
        ensures
            final(self).wf(),
            forall|b: int|
                0 <= b < 256 ==> final(self).count(b) == old(self).count(b) + spec_bucket_mass(
                    samples@,
                    b,
                    min as int,
                    max as int,
                ),
    {
        let ghost orig: Seq<int> = self.counts_int();
        let mut i: usize = 0;
        while i < samples.len()
            invariant
                self.counts@.len() == 256,
                i <= samples@.len(),
                -LOG_BOUND <= min < max <= LOG_BOUND,
                spec_sum(orig) + spec_total_weight(samples@) <= u32::MAX,
                forall|b: int| 0 <= b < 256 ==> 0 <= orig[b],
                orig.len() == 256,
                forall|b: int|
                    0 <= b < 256 ==> self.counts@[b] == orig[b] + spec_bucket_mass(
                        samples@.subrange(0, i as int),
                        b,
                        min as int,
                        max as int,
                    ),
            decreases samples@.len() - i,
        {
            let s = samples[i];
            let b = bucket_for(s.log_lum, min, max);
            let ghost prefix: Seq<Sample> = samples@.subrange(0, i as int);
            proof {
                assert(samples@.subrange(0, i + 1).drop_last() =~= prefix);
                assert(samples@.subrange(0, i + 1).last() == samples@[i as int]);
                lemma_bucket_mass_le_total(prefix, b as int, min as int, max as int);
                lemma_total_weight_prefix(samples@, i + 1);
                lemma_sum_bounds_element(orig, b as int);
                assert(spec_total_weight(prefix) + s.weight == spec_total_weight(
                    samples@.subrange(0, i + 1),
                ));
            }
            let c = self.counts[b];
            self.counts.set(b, c + s.weight);
            i = i + 1;
        }
        proof {
            assert(samples@.subrange(0, samples@.len() as int) =~= samples@);
        }
    }

    /// The summed count over all buckets, computed.
    pub fn total_count(&self) -> (t: u64)
        requires
            self.wf(),
        ensures
            t == self.total(),
    {
        let mut t: u64 = 0;
        let mut i: usize = 0;
        while i < 256
            invariant
                self.counts@.len() == 256,
                i <= 256,
                t == spec_sum(self.counts_int().subrange(0, i as int)),
                t <= i * 0xffff_ffff,
            decreases 256 - i,
        {
            proof {
                assert(self.counts_int().subrange(0, i + 1).drop_last() =~= self.counts_int()
                    .subrange(0, i as int));
            }
            t = t + self.counts[i] as u64;
            i = i + 1;
        }
        proof {
            assert(self.counts_int().subrange(0, 256) =~= self.counts_int());
        }
        t
    }
}

} // verus!
