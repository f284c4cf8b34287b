//! Temporal adaptation of the metered luminance, and exposure compensation.
//!
//! Each frame, the instantaneous metered log-luminance pulls the persistent
//! per-camera exposure state a fraction of the remaining gap toward itself.
//! The fraction is `rate * dt`, capped at the whole gap, with different rates
//! for brightening and darkening, which realizes asymmetric exponential
//! convergence: the state moves monotonically toward the target and never
//! passes it. After adaptation, a global correction and an optional
//! compensation curve are added to form the exported exposure value.

use vstd::prelude::*;
use crate::fixed::FP_ONE;
use crate::fixed::LOG_BOUND;
use crate::fixed::RATE_BOUND;
use crate::fixed::clamp_fixed;
use crate::fixed::spec_clamp;
use crate::fixed::lemma_div_below_multiple;
use crate::fixed::lemma_div_nonneg;
use crate::fixed::lemma_div_ordered;
use crate::AutoExposure;

verus! {

/// The fraction of the remaining gap closed during `dt` at the given rate, in
/// units of `1 / FP_ONE`, capped at one whole gap.
pub open spec fn spec_adapt_factor(speed: int, dt: int) -> int {
    let f: int = speed * dt / (FP_ONE as int);
    if f > FP_ONE {
        FP_ONE as int
    } else {
        f
    }
}

/// The adaptation factor is a proper fraction: between zero and one.
pub proof fn lemma_adapt_factor_bounds(speed: int, dt: int)
    requires
        0 <= speed,
        0 <= dt,
    ensures
        0 <= spec_adapt_factor(speed, dt) <= FP_ONE,
{
    vstd::arithmetic::mul::lemma_mul_nonnegative(speed, dt);
    lemma_div_nonneg(speed * dt, FP_ONE as int);
}

/// One step of asymmetric exponential smoothing: the state moves toward the
/// target by the gap scaled with the brightening factor when the target is
/// above it, with the darkening factor otherwise.
pub open spec fn spec_adapt(current: int, target: int, speed_up: int, speed_down: int, dt: int) -> int {
    if target > current {
        current + (target - current) * spec_adapt_factor(speed_up, dt) / (FP_ONE as int)
    } else {
        current - (current - target) * spec_adapt_factor(speed_down, dt) / (FP_ONE as int)
    }
}

/// A single adaptation step lands between the old value and the target: it
/// approaches the target monotonically and never overshoots it.
pub proof fn lemma_adapt_step_bounds(current: int, target: int, speed_up: int, speed_down: int, dt: int)
    requires
        0 <= speed_up,
        0 <= speed_down,
        0 <= dt,
    ensures
        current <= target ==> current <= spec_adapt(current, target, speed_up, speed_down, dt)
            <= target,
        target <= current ==> target <= spec_adapt(current, target, speed_up, speed_down, dt)
            <= current,
{
    if target > current {
        let gap: int = target - current;
        let f: int = spec_adapt_factor(speed_up, dt);
        lemma_adapt_factor_bounds(speed_up, dt);
        vstd::arithmetic::mul::lemma_mul_nonnegative(gap, f);
        lemma_div_nonneg(gap * f, FP_ONE as int);
        vstd::arithmetic::mul::lemma_mul_inequality(f, FP_ONE as int, gap);
        vstd::arithmetic::mul::lemma_mul_is_commutative(gap, f);
        vstd::arithmetic::mul::lemma_mul_is_commutative(gap, FP_ONE as int);
        lemma_div_below_multiple(gap * f, gap, FP_ONE as int);
    } else {
        let gap: int = current - target;
        let f: int = spec_adapt_factor(speed_down, dt);
        lemma_adapt_factor_bounds(speed_down, dt);
        vstd::arithmetic::mul::lemma_mul_nonnegative(gap, f);
        lemma_div_nonneg(gap * f, FP_ONE as int);
        vstd::arithmetic::mul::lemma_mul_inequality(f, FP_ONE as int, gap);
        vstd::arithmetic::mul::lemma_mul_is_commutative(gap, f);
        vstd::arithmetic::mul::lemma_mul_is_commutative(gap, FP_ONE as int);
        lemma_div_below_multiple(gap * f, gap, FP_ONE as int);
    }
}

/// Computes the adaptation factor for one frame.
pub fn adapt_factor(speed: i64, dt: i64) -> (f: i64)
    requires
        0 <= speed <= RATE_BOUND,
        0 <= dt <= RATE_BOUND,
    ensures
        f == spec_adapt_factor(speed as int, dt as int),
        0 <= f <= FP_ONE,
{
    proof {
        vstd::arithmetic::mul::lemma_mul_upper_bound(
            speed as int,
            RATE_BOUND as int,
            dt as int,
            RATE_BOUND as int,
        );
        lemma_adapt_factor_bounds(speed as int, dt as int);
    }
    let p: u64 = (speed as u64) * (dt as u64);
    let f: u64 = p / (FP_ONE as u64);
    if f > FP_ONE as u64 {
        FP_ONE
    } else {
        f as i64
    }
}

/// One step of temporal adaptation toward the metered target.
///
/// The result is exactly the smoothing formula's value; it lies between the
/// old value and the target, and the gap it closes is exactly the gap scaled
/// by the direction's adaptation factor.
pub fn adapt(current: i64, target: i64, speed_up: i64, speed_down: i64, dt: i64) -> (r: i64)
    requires
        -2 * LOG_BOUND <= current <= 2 * LOG_BOUND,
        -2 * LOG_BOUND <= target <= 2 * LOG_BOUND,
        0 <= speed_up <= RATE_BOUND,
        0 <= speed_down <= RATE_BOUND,
        0 <= dt <= RATE_BOUND,
    ensures
        r == spec_adapt(current as int, target as int, speed_up as int, speed_down as int, dt as int),
        current <= target ==> current <= r <= target,
        target <= current ==> target <= r <= current,
        target > current ==> r - current == (target - current) * spec_adapt_factor(
            speed_up as int,
            dt as int,
        ) / (FP_ONE as int),
        target < current ==> current - r == (current - target) * spec_adapt_factor(
            speed_down as int,
            dt as int,
        ) / (FP_ONE as int),
{
    proof {
        lemma_adapt_step_bounds(
            current as int,
            target as int,
            speed_up as int,
            speed_down as int,
            dt as int,
        );
    }
    if target > current {
        let gap: u64 = (target - current) as u64;
        let f: u64 = adapt_factor(speed_up, dt) as u64;
        proof {
            vstd::arithmetic::mul::lemma_mul_upper_bound(
                gap as int,
                4 * LOG_BOUND as int,
                f as int,
                FP_ONE as int,
            );
            vstd::arithmetic::mul::lemma_mul_nonnegative(gap as int, f as int);
            vstd::arithmetic::mul::lemma_mul_inequality(f as int, FP_ONE as int, gap as int);
            vstd::arithmetic::mul::lemma_mul_is_commutative(gap as int, f as int);
            vstd::arithmetic::mul::lemma_mul_is_commutative(gap as int, FP_ONE as int);
            lemma_div_below_multiple(gap as int * f as int, gap as int, FP_ONE as int);
            lemma_div_nonneg(gap as int * f as int, FP_ONE as int);
        }
        let step: u64 = gap * f / (FP_ONE as u64);
        current + step as i64
    } else {
        let gap: u64 = (current - target) as u64;
        let f: u64 = adapt_factor(speed_down, dt) as u64;
        proof {
            vstd::arithmetic::mul::lemma_mul_upper_bound(
                gap as int,
                4 * LOG_BOUND as int,
                f as int,
                FP_ONE as int,
            );
            vstd::arithmetic::mul::lemma_mul_nonnegative(gap as int, f as int);
            vstd::arithmetic::mul::lemma_mul_inequality(f as int, FP_ONE as int, gap as int);
            vstd::arithmetic::mul::lemma_mul_is_commutative(gap as int, f as int);
            vstd::arithmetic::mul::lemma_mul_is_commutative(gap as int, FP_ONE as int);
            lemma_div_below_multiple(gap as int * f as int, gap as int, FP_ONE as int);
            lemma_div_nonneg(gap as int * f as int, FP_ONE as int);
        }
        let step: u64 = gap * f / (FP_ONE as u64);
        current - step as i64
    }
}

/// The adapted value after a whole run of frames with a constant target, one
/// adaptation step per frame.
pub open spec fn spec_adapt_seq(
    current: int,
    target: int,
    speed_up: int,
    speed_down: int,
    dts: Seq<int>,
) -> int
    decreases dts.len(),
{
    if dts.len() == 0 {
        current
    } else {
        spec_adapt(
            spec_adapt_seq(current, target, speed_up, speed_down, dts.drop_last()),
            target,
            speed_up,
            speed_down,
            dts.last(),
        )
    }
}

/// Toward a constant target, adaptation converges monotonically and never
/// overshoots, however the elapsed time is partitioned into frames: after
/// every prefix of frames the state lies between the previous frame's state
/// and the target.
pub proof fn lemma_adaptation_monotone_convergence(
    current: int,
    target: int,
    speed_up: int,
    speed_down: int,
    dts: Seq<int>,
)
    requires
        0 <= speed_up,
        0 <= speed_down,
        forall|i: int| 0 <= i < dts.len() ==> 0 <= dts[i],
    ensures
        current <= target ==> current <= spec_adapt_seq(current, target, speed_up, speed_down, dts)
            <= target,
        target <= current ==> target <= spec_adapt_seq(current, target, speed_up, speed_down, dts)
            <= current,
        dts.len() > 0 && current <= target ==> spec_adapt_seq(
            current,
            target,
            speed_up,
            speed_down,
            dts.drop_last(),
        ) <= spec_adapt_seq(current, target, speed_up, speed_down, dts),
        dts.len() > 0 && target <= current ==> spec_adapt_seq(
            current,
            target,
            speed_up,
            speed_down,
            dts,
        ) <= spec_adapt_seq(current, target, speed_up, speed_down, dts.drop_last()),
    decreases dts.len(),
{
    if dts.len() > 0 {
        lemma_adaptation_monotone_convergence(
            current,
            target,
            speed_up,
            speed_down,
            dts.drop_last(),
        );
        lemma_adapt_step_bounds(
            spec_adapt_seq(current, target, speed_up, speed_down, dts.drop_last()),
            target,
            speed_up,
            speed_down,
            dts.last(),
        );
    }
}

/// The factors of two consecutive frames never outweigh the factor of the
/// single frame spanning both their times.
proof fn lemma_factor_superadditive(speed: int, d1: int, d2: int)
    requires
        0 <= speed,
        0 <= d1,
        0 <= d2,
    ensures
        spec_adapt_factor(speed, d1 + d2) < FP_ONE ==> spec_adapt_factor(speed, d1)
            + spec_adapt_factor(speed, d2) <= spec_adapt_factor(speed, d1 + d2),
{
    vstd::arithmetic::mul::lemma_mul_nonnegative(speed, d1);
    vstd::arithmetic::mul::lemma_mul_nonnegative(speed, d2);
    vstd::arithmetic::mul::lemma_mul_is_distributive_add(speed, d1, d2);
    crate::fixed::lemma_div_superadditive(speed * d1, speed * d2, FP_ONE as int);
    lemma_div_ordered(speed * d1, speed * d1 + speed * d2, FP_ONE as int);
    lemma_div_ordered(speed * d2, speed * d1 + speed * d2, FP_ONE as int);
}

/// Partitioning the elapsed time cannot overshoot, and in fact loses
/// ground: toward a constant target, two consecutive adaptation steps over
/// `d1` and `d2` close at most what the single step over `d1 + d2` closes,
/// and both end between the start and the target.
pub proof fn lemma_adaptation_split_step(current: int, target: int, speed: int, d1: int, d2: int)
    requires
        0 <= speed,
        0 <= d1,
        0 <= d2,
    ensures
        current <= target ==> current <= spec_adapt(
            spec_adapt(current, target, speed, speed, d1),
            target,
            speed,
            speed,
            d2,
        ) <= spec_adapt(current, target, speed, speed, d1 + d2) <= target,
        target <= current ==> target <= spec_adapt(current, target, speed, speed, d1 + d2)
            <= spec_adapt(spec_adapt(current, target, speed, speed, d1), target, speed, speed, d2)
            <= current,
{
    let fp: int = FP_ONE as int;
    let f1: int = spec_adapt_factor(speed, d1);
    let f2: int = spec_adapt_factor(speed, d2);
    let f12: int = spec_adapt_factor(speed, d1 + d2);
    lemma_adapt_factor_bounds(speed, d1);
    lemma_adapt_factor_bounds(speed, d2);
    lemma_adapt_factor_bounds(speed, d1 + d2);
    lemma_adapt_step_bounds(current, target, speed, speed, d1);
    lemma_adapt_step_bounds(spec_adapt(current, target, speed, speed, d1), target, speed, speed, d2);
    lemma_adapt_step_bounds(current, target, speed, speed, d1 + d2);
    lemma_factor_superadditive(speed, d1, d2);
    if current == target {
    } else if current < target {
        let g: int = target - current;
        let s1: int = g * f1 / fp;
        let after1: int = current + s1;
        let g1: int = target - after1;
        let s2: int = g1 * f2 / fp;
        vstd::arithmetic::mul::lemma_mul_nonnegative(g, f1);
        lemma_div_nonneg(g * f1, fp);
        vstd::arithmetic::mul::lemma_mul_inequality(f1, fp, g);
        vstd::arithmetic::mul::lemma_mul_is_commutative(g, f1);
        vstd::arithmetic::mul::lemma_mul_is_commutative(g, fp);
        lemma_div_below_multiple(g * f1, g, fp);
        if f12 == fp {
            vstd::arithmetic::div_mod::lemma_div_by_multiple(g, fp);
            vstd::arithmetic::mul::lemma_mul_is_commutative(g, fp);
            assert(g * fp / fp == g);
            assert(spec_adapt(current, target, speed, speed, d1 + d2) == target);
        } else {
            vstd::arithmetic::mul::lemma_mul_inequality(g1, g, f2);
            lemma_div_ordered(g1 * f2, g * f2, fp);
            crate::fixed::lemma_div_superadditive(g * f1, g * f2, fp);
            vstd::arithmetic::mul::lemma_mul_is_distributive_add(g, f1, f2);
            vstd::arithmetic::mul::lemma_mul_inequality(f1 + f2, f12, g);
            vstd::arithmetic::mul::lemma_mul_is_commutative(g, f2);
            vstd::arithmetic::mul::lemma_mul_is_commutative(g, f1 + f2);
            vstd::arithmetic::mul::lemma_mul_is_commutative(g, f12);
            lemma_div_ordered(g * (f1 + f2), g * f12, fp);
            assert(s1 + s2 <= g * f12 / fp);
        }
    } else {
        let g: int = current - target;
        let s1: int = g * f1 / fp;
        let after1: int = current - s1;
        let g1: int = after1 - target;
        let s2: int = g1 * f2 / fp;
        vstd::arithmetic::mul::lemma_mul_nonnegative(g, f1);
        lemma_div_nonneg(g * f1, fp);
        vstd::arithmetic::mul::lemma_mul_inequality(f1, fp, g);
        vstd::arithmetic::mul::lemma_mul_is_commutative(g, f1);
        vstd::arithmetic::mul::lemma_mul_is_commutative(g, fp);
        lemma_div_below_multiple(g * f1, g, fp);
        if f12 == fp {
            vstd::arithmetic::div_mod::lemma_div_by_multiple(g, fp);
            vstd::arithmetic::mul::lemma_mul_is_commutative(g, fp);
            assert(g * fp / fp == g);
            assert(spec_adapt(current, target, speed, speed, d1 + d2) == target);
        } else {
            vstd::arithmetic::mul::lemma_mul_inequality(g1, g, f2);
            lemma_div_ordered(g1 * f2, g * f2, fp);
            crate::fixed::lemma_div_superadditive(g * f1, g * f2, fp);
            vstd::arithmetic::mul::lemma_mul_is_distributive_add(g, f1, f2);
            vstd::arithmetic::mul::lemma_mul_inequality(f1 + f2, f12, g);
            vstd::arithmetic::mul::lemma_mul_is_commutative(g, f2);
            vstd::arithmetic::mul::lemma_mul_is_commutative(g, f1 + f2);
            vstd::arithmetic::mul::lemma_mul_is_commutative(g, f12);
            lemma_div_ordered(g * (f1 + f2), g * f12, fp);
            assert(s1 + s2 <= g * f12 / fp);
        }
    }
}

/// The simpler, untrimmed fixed-step metering mode is the degenerate
/// special case of this design: with `rate * dt` at or past one whole unit
/// the adaptation factor saturates and a step lands exactly on the target.
pub proof fn lemma_saturated_rate_snaps_to_target(
    current: int,
    target: int,
    speed_up: int,
    speed_down: int,
    dt: int,
)
    requires
        0 <= dt,
        0 <= speed_up,
        0 <= speed_down,
        speed_up * dt >= FP_ONE * FP_ONE,
        speed_down * dt >= FP_ONE * FP_ONE,
    ensures
        spec_adapt(current, target, speed_up, speed_down, dt) == target,
{
    let fp: int = FP_ONE as int;
    lemma_div_ordered(fp * fp, speed_up * dt, fp);
    lemma_div_ordered(fp * fp, speed_down * dt, fp);
    vstd::arithmetic::div_mod::lemma_div_by_multiple(fp, fp);
    assert(spec_adapt_factor(speed_up, dt) == fp);
    assert(spec_adapt_factor(speed_down, dt) == fp);
    if target > current {
        let g: int = target - current;
        vstd::arithmetic::mul::lemma_mul_is_commutative(g, fp);
        vstd::arithmetic::div_mod::lemma_div_by_multiple(g, fp);
    } else {
        let g: int = current - target;
        vstd::arithmetic::mul::lemma_mul_is_commutative(g, fp);
        vstd::arithmetic::div_mod::lemma_div_by_multiple(g, fp);
    }
}

/// Adaptation is asymmetric: for one and the same gap, the amount closed in
/// one frame is strictly larger in the direction whose factor is larger,
/// whenever the gap is wide enough for the factors' difference to matter.
pub proof fn lemma_adaptation_asymmetric(current: int, gap: int, speed_up: int, speed_down: int, dt: int)
    requires
        0 < gap,
        0 <= speed_up,
        0 <= speed_down,
        0 <= dt,
        gap * (spec_adapt_factor(speed_up, dt) - spec_adapt_factor(speed_down, dt)) >= FP_ONE,
    ensures
        spec_adapt(current, current + gap, speed_up, speed_down, dt) - current > current
            - spec_adapt(current, current - gap, speed_up, speed_down, dt),
{
    let fu: int = spec_adapt_factor(speed_up, dt);
    let fd: int = spec_adapt_factor(speed_down, dt);
    vstd::arithmetic::mul::lemma_mul_is_distributive_sub(gap, fu, fd);
    vstd::arithmetic::mul::lemma_mul_nonnegative(gap, fd);
    lemma_div_ordered(gap * fd + FP_ONE, gap * fu, FP_ONE as int);
    vstd::arithmetic::div_mod::lemma_div_plus_one(gap * fd, FP_ONE as int);
}

/// The persistent per-camera exposure state: the adapted log-luminance that
/// tone mapping consumes. Temporal adaptation is its only writer.
#[derive(Clone, Copy, PartialEq, Eq, Structural, Debug)]
pub struct ExposureState {
    /// The adapted log-luminance, in fixed point.
    pub current_log_luminance: i64,
}

impl ExposureState {
    /// The state's value lies in the configured log-luminance range.
    pub open spec fn in_range(&self, min: int, max: int) -> bool {
        min <= self.current_log_luminance <= max
    }

    /// A fresh state, zero like the zero-initialized buffer backing it.
    pub fn new() -> (s: ExposureState)
        ensures
            s.current_log_luminance == 0,
    {
        ExposureState { current_log_luminance: 0 }
    }

    /// Folds one frame's instantaneous metered luminance into the state:
    /// one adaptation step, then a clamp into the configured range, which
    /// the state therefore never leaves.
    pub fn frame_update(&mut self, instant: i64, config: &AutoExposure, dt: i64)
        requires
            config.valid(),
            -LOG_BOUND <= old(self).current_log_luminance <= LOG_BOUND,
            -LOG_BOUND <= instant <= LOG_BOUND,
            0 <= dt <= RATE_BOUND,
        ensures
            final(self).current_log_luminance == spec_clamp(
                spec_adapt(
                    old(self).current_log_luminance as int,
                    instant as int,
                    config.speed_up as int,
                    config.speed_down as int,
                    dt as int,
                ),
                config.min as int,
                config.max as int,
            ),
            final(self).in_range(config.min as int, config.max as int),
    {
        let adapted: i64 = adapt(
            self.current_log_luminance,
            instant,
            config.speed_up,
            config.speed_down,
            dt,
        );
        self.current_log_luminance = clamp_fixed(adapted, config.min, config.max);
    }
}

/// The state after a run of frames, each metering an instantaneous target
/// and elapsing some time: every frame adapts and clamps.
pub open spec fn spec_state_seq(
    start: int,
    frames: Seq<(int, int)>,
    min: int,
    max: int,
    speed_up: int,
    speed_down: int,
) -> int
    decreases frames.len(),
{
    if frames.len() == 0 {
        start
    } else {
        spec_clamp(
            spec_adapt(
                spec_state_seq(start, frames.drop_last(), min, max, speed_up, speed_down),
                frames.last().0,
                speed_up,
                speed_down,
                frames.last().1,
            ),
            min,
            max,
        )
    }
}

/// The exposure state never leaves the configured range: after any finite
/// run of frames, whatever the in-range metered targets and the frame times,
/// the state stays within `[min, max]`.
pub proof fn lemma_state_stays_in_range(
    start: int,
    frames: Seq<(int, int)>,
    min: int,
    max: int,
    speed_up: int,
    speed_down: int,
)
    requires
        min <= start <= max,
    ensures
        min <= spec_state_seq(start, frames, min, max, speed_up, speed_down) <= max,
    decreases frames.len(),
{
    if frames.len() > 0 {
        lemma_state_stays_in_range(start, frames.drop_last(), min, max, speed_up, speed_down);
    }
}

/// One control point of a compensation curve: at metered log-luminance
/// `log_lum`, add `offset` to the exposure.
#[derive(Clone, Copy, PartialEq, Eq, Structural, Debug)]
pub struct CurvePoint {
    /// The metered log-luminance this point speaks of, in fixed point.
    pub log_lum: i64,
    /// The additional correction applied at that luminance, in fixed point.
    pub offset: i64,
}

/// Linear interpolation between two control points, evaluated at `x`.
pub open spec fn spec_interp(x: int, x0: int, y0: int, x1: int, y1: int) -> int {
    if y1 >= y0 {
        y0 + (x - x0) * (y1 - y0) / (x1 - x0)
    } else {
        y0 - (x - x0) * (y0 - y1) / (x1 - x0)
    }
}

/// A compensation curve's offset at `x`: the nearest control points
/// interpolate linearly, the ends clamp, an empty curve adds nothing.
pub open spec fn spec_curve_eval(ps: Seq<CurvePoint>, x: int) -> int
    decreases ps.len(),
{
    if ps.len() == 0 {
        0
    } else if x <= ps[0].log_lum {
        ps[0].offset as int
    } else if ps.len() == 1 {
        ps[0].offset as int
    } else if x <= ps[1].log_lum {
        spec_interp(
            x,
            ps[0].log_lum as int,
            ps[0].offset as int,
            ps[1].log_lum as int,
            ps[1].offset as int,
        )
    } else {
        spec_curve_eval(ps.subrange(1, ps.len() as int), x)
    }
}

/// An ordered sequence of control points mapping metered log-luminance to an
/// additional exposure correction.
pub struct CompensationCurve {
    /// The control points, strictly increasing in log-luminance.
    pub points: Vec<CurvePoint>,
}

impl CompensationCurve {
    /// Control points are strictly ordered by log-luminance and bounded.
    pub open spec fn wf(&self) -> bool {
        &&& forall|i: int, j: int|
            0 <= i < j < self.points@.len() ==> self.points@[i].log_lum < self.points@[j].log_lum
        &&& forall|i: int|
            0 <= i < self.points@.len() ==> -LOG_BOUND <= (#[trigger] self.points@[i]).log_lum
                <= LOG_BOUND && -LOG_BOUND <= self.points@[i].offset <= LOG_BOUND
    }

    /// Checks that the control points are strictly ordered and bounded;
    /// a malformed curve is rejected at configuration time, not repaired.
    pub fn validate(&self) -> (r: bool)
        ensures
            r <==> self.wf(),
    {
        let n: usize = self.points.len();
        let mut i: usize = 0;
        let mut ok: bool = true;
        while i < n
            invariant
                n == self.points@.len(),
                i <= n,
                ok <==> (forall|k: int|
                    0 <= k < i ==> (k + 1 < n ==> (#[trigger] self.points@[k]).log_lum
                        < self.points@[k + 1].log_lum) && -LOG_BOUND <= self.points@[k].log_lum
                        <= LOG_BOUND && -LOG_BOUND <= self.points@[k].offset <= LOG_BOUND),
            decreases n - i,
        {
            let p = self.points[i];
            if p.log_lum < -LOG_BOUND || p.log_lum > LOG_BOUND || p.offset < -LOG_BOUND || p.offset
                > LOG_BOUND {
                ok = false;
            }
            if i + 1 < n {
                if self.points[i + 1].log_lum <= p.log_lum {
                    ok = false;
                }
            }
            i = i + 1;
        }
        proof {
            if ok {
                lemma_adjacent_order_is_total(self.points@);
            }
        }
        ok
    }

    /// Evaluates the curve's correction offset at metered log-luminance `x`.
    pub fn eval(&self, x: i64) -> (r: i64)
        requires
            self.wf(),
        ensures
            r == spec_curve_eval(self.points@, x as int),
            -LOG_BOUND <= r <= LOG_BOUND,
    {
        let n: usize = self.points.len();
        if n == 0 {
            return 0;
        }
        let first = self.points[0];
        if x <= first.log_lum {
            return first.offset;
        }
        let mut i: usize = 0;
        proof {
            assert(self.points@.subrange(0, n as int) =~= self.points@);
        }
        while i + 1 < n && x > self.points[i + 1].log_lum
            invariant
                self.wf(),
                n == self.points@.len(),
                0 < n,
                i < n,
                x > self.points@[i as int].log_lum,
                spec_curve_eval(self.points@, x as int) == spec_curve_eval(
                    self.points@.subrange(i as int, n as int),
                    x as int,
                ),
            decreases n - i,
        {
            proof {
                let tail: Seq<CurvePoint> = self.points@.subrange(i as int, n as int);
                assert(tail.subrange(1, tail.len() as int) =~= self.points@.subrange(
                    i + 1,
                    n as int,
                ));
            }
            i = i + 1;
        }
        let ghost tail: Seq<CurvePoint> = self.points@.subrange(i as int, n as int);
        if i + 1 == n {
            proof {
                assert(tail.len() == 1);
            }
            self.points[i].offset
        } else {
            let p0 = self.points[i];
            let p1 = self.points[i + 1];
            proof {
                assert(tail[0] == p0);
                assert(tail[1] == p1);
            }
            interp(x, p0.log_lum, p0.offset, p1.log_lum, p1.offset)
        }
    }
}

/// A sequence whose adjacent control points are ordered is ordered as a
/// whole.
proof fn lemma_adjacent_order_is_total(ps: Seq<CurvePoint>)
    requires
        forall|k: int| 0 <= k && k + 1 < ps.len() ==> (#[trigger] ps[k]).log_lum < ps[k + 1].log_lum,
    ensures
        forall|i: int, j: int| 0 <= i < j < ps.len() ==> ps[i].log_lum < ps[j].log_lum,
{
    assert forall|i: int, j: int| 0 <= i < j < ps.len() implies ps[i].log_lum < ps[j].log_lum by {
        lemma_order_chain(ps, i, j);
    }
}

/// Chains adjacent order from index `i` up to index `j`.
proof fn lemma_order_chain(ps: Seq<CurvePoint>, i: int, j: int)
    requires
        forall|k: int| 0 <= k && k + 1 < ps.len() ==> (#[trigger] ps[k]).log_lum < ps[k + 1].log_lum,
        0 <= i < j < ps.len(),
    ensures
        ps[i].log_lum < ps[j].log_lum,
    decreases j - i,
{
    if i + 1 < j {
        lemma_order_chain(ps, i + 1, j);
    }
}

/// Linear interpolation between two bounded control points; the result lies
/// between the two offsets.
fn interp(x: i64, x0: i64, y0: i64, x1: i64, y1: i64) -> (r: i64)
    requires
        -LOG_BOUND <= x0 < x1 <= LOG_BOUND,
        x0 <= x <= x1,
        -LOG_BOUND <= y0 <= LOG_BOUND,
        -LOG_BOUND <= y1 <= LOG_BOUND,
    ensures
        r == spec_interp(x as int, x0 as int, y0 as int, x1 as int, y1 as int),
        y0 <= y1 ==> y0 <= r <= y1,
        y1 <= y0 ==> y1 <= r <= y0,
{
    let dx: u64 = (x1 - x0) as u64;
    let dxm: u64 = (x - x0) as u64;
    if y1 >= y0 {
        let dy: u64 = (y1 - y0) as u64;
        proof {
            vstd::arithmetic::mul::lemma_mul_upper_bound(
                dxm as int,
                2 * LOG_BOUND as int,
                dy as int,
                2 * LOG_BOUND as int,
            );
            vstd::arithmetic::mul::lemma_mul_nonnegative(dxm as int, dy as int);
            vstd::arithmetic::mul::lemma_mul_inequality(dxm as int, dx as int, dy as int);
            vstd::arithmetic::mul::lemma_mul_is_commutative(dxm as int, dy as int);
            vstd::arithmetic::mul::lemma_mul_is_commutative(dx as int, dy as int);
            lemma_div_below_multiple(dxm as int * dy as int, dy as int, dx as int);
            lemma_div_nonneg(dxm as int * dy as int, dx as int);
        }
        let off: u64 = dxm * dy / dx;
        y0 + off as i64
    } else {
        let dy: u64 = (y0 - y1) as u64;
        proof {
            vstd::arithmetic::mul::lemma_mul_upper_bound(
                dxm as int,
                2 * LOG_BOUND as int,
                dy as int,
                2 * LOG_BOUND as int,
            );
            vstd::arithmetic::mul::lemma_mul_nonnegative(dxm as int, dy as int);
            vstd::arithmetic::mul::lemma_mul_inequality(dxm as int, dx as int, dy as int);
            vstd::arithmetic::mul::lemma_mul_is_commutative(dxm as int, dy as int);
            vstd::arithmetic::mul::lemma_mul_is_commutative(dx as int, dy as int);
            lemma_div_below_multiple(dxm as int * dy as int, dy as int, dx as int);
            lemma_div_nonneg(dxm as int * dy as int, dx as int);
        }
        let off: u64 = dxm * dy / dx;
        y0 - off as i64
    }
}

/// The exposure value exported to tone mapping: the adapted state plus the
/// global correction plus the compensation curve's offset at the adapted
/// state (or nothing, when no curve is configured).
pub fn exported_exposure(current: i64, correction: i64, curve: &Option<CompensationCurve>) -> (r: i64)
    requires
        -LOG_BOUND <= current <= LOG_BOUND,
        -LOG_BOUND <= correction <= LOG_BOUND,
        curve is Some ==> curve->Some_0.wf(),
    ensures
        r == current + correction + (match curve {
            Some(c) => spec_curve_eval(c.points@, current as int),
            None => 0,
        }),
{
    match curve {
        Some(c) => current + correction + c.eval(current),
        None => current + correction,
    }
}

} // verus!
