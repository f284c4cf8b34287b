//! The per-frame metering step for one camera.
//!
//! Each frame and camera, the orchestrator decides whether metering can run
//! at all (HDR target, both kernel variants compiled, a live export
//! destination), refreshes the binding-set cache, resets and refills the
//! histogram, reduces it to an instantaneous log-luminance, folds that into
//! the camera's exposure state, and forms the exported exposure value.

use vstd::prelude::*;
use crate::AutoExposure;
use crate::AutoExposureResources;
use crate::fixed::LOG_BOUND;
use crate::fixed::RATE_BOUND;
use crate::fixed::spec_clamp;
use crate::histogram::Sample;
use crate::histogram::spec_bucket_mass;
use crate::histogram::spec_mass_seq;
use crate::histogram::spec_total_weight;
use crate::histogram::lemma_histogram_mass_conserved;
use crate::histogram::lemma_sum_zero_seq;
use crate::average::average;
use crate::average::spec_average;
use crate::adapt::ExposureState;
use crate::adapt::spec_adapt;
use crate::adapt::spec_curve_eval;
use crate::adapt::exported_exposure;

verus! {

/// The identities of the resources a camera's binding set was built from.
#[derive(PartialEq, Eq, Structural, Clone, Copy, Debug)]
pub struct BindGroupKey {
    /// Identity of the source HDR image view.
    pub source_id: u64,
    /// Identity of the metering mask view (or of the fallback image).
    pub mask_id: u64,
}

/// The key built from this frame's source and mask identities.
pub open spec fn spec_bind_key(source_id: u64, mask_id: u64) -> BindGroupKey {
    BindGroupKey { source_id, mask_id }
}

/// The memoized binding set: while the source and mask identities stay what
/// they were, the previously built binding set is reused verbatim.
pub struct BindGroupCache {
    /// The identities the cached binding set was built from, if any.
    pub key: Option<BindGroupKey>,
}

impl BindGroupCache {
    /// An empty cache: nothing bound yet.
    pub fn new() -> (c: BindGroupCache)
        ensures
            c.key is None,
    {
        BindGroupCache { key: None }
    }

    /// Records this frame's resource identities. Reports whether the binding
    /// set must be rebuilt — exactly when either identity changed since the
    /// previous frame — or can be reused as it is.
    pub fn refresh(&mut self, source_id: u64, mask_id: u64) -> (rebuild: bool)
        ensures
            final(self).key == Some(spec_bind_key(source_id, mask_id)),
            rebuild <==> old(self).key != Some(spec_bind_key(source_id, mask_id)),
    {
        let rebuild: bool = match &self.key {
            Some(k) => k.source_id != source_id || k.mask_id != mask_id,
            None => true,
        };
        if rebuild {
            self.key = Some(BindGroupKey { source_id, mask_id });
        }
        rebuild
    }
}

/// Work-group counts for the histogram pass: 16x16-pixel tiles covering the
/// whole viewport, partial tiles included.
pub fn histogram_workgroups(width: u32, height: u32) -> (r: (u32, u32))
    ensures
        r.0 == (width + 15) / 16,
        r.1 == (height + 15) / 16,
        16 * r.0 >= width,
        16 * r.1 >= height,
        width > 0 ==> 16 * (r.0 - 1) < width,
        height > 0 ==> 16 * (r.1 - 1) < height,
{
    proof {
        vstd::arithmetic::div_mod::lemma_fundamental_div_mod(width + 15, 16);
        vstd::arithmetic::div_mod::lemma_mod_bound(width + 15, 16);
        vstd::arithmetic::div_mod::lemma_fundamental_div_mod(height + 15, 16);
        vstd::arithmetic::div_mod::lemma_mod_bound(height + 15, 16);
    }
    let wx: u64 = (width as u64 + 15) / 16;
    let wy: u64 = (height as u64 + 15) / 16;
    (wx as u32, wy as u32)
}

/// What the host's render graph hands the metering node for one camera,
/// reduced to plain values: the skip conditions, the viewport, its weighted
/// log-luminance samples, and the bound resources' identities.
pub struct FrameView {
    /// Whether the camera renders to an HDR (linear floating-point) target.
    pub hdr_target: bool,
    /// Whether the Histogram kernel variant has finished compiling.
    pub histogram_ready: bool,
    /// Whether the Average kernel variant has finished compiling.
    pub average_ready: bool,
    /// Viewport width in pixels.
    pub width: u32,
    /// Viewport height in pixels.
    pub height: u32,
    /// One weighted log-luminance sample per viewport pixel.
    pub samples: Vec<Sample>,
    /// Identity of the source image view.
    pub source_id: u64,
    /// Identity of the metering mask view, or of the fallback image.
    pub mask_id: u64,
    /// Whether the downstream view-uniforms destination exists.
    pub export_target_exists: bool,
}

impl FrameView {
    /// Metering runs this frame: the target is HDR, both kernel variants
    /// are compiled, and the export destination exists.
    pub open spec fn spec_runs(&self) -> bool {
        &&& self.hdr_target
        &&& self.histogram_ready
        &&& self.average_ready
        &&& self.export_target_exists
    }
}

/// How one camera's frame went.
#[derive(PartialEq, Eq, Structural, Clone, Copy, Debug)]
pub enum FrameRun {
    /// The target is not HDR: the camera is skipped until that changes.
    SkippedNonHdr,
    /// A kernel variant is still compiling: skipped, retried next frame.
    SkippedPipelinePending,
    /// Metering ran to completion.
    Metered {
        /// The trimmed mean log-luminance metered this frame.
        instant_log_luminance: i64,
        /// The exposure value exported to tone mapping.
        exposure: i64,
        /// Histogram-pass work groups along the width.
        workgroups_x: u32,
        /// Histogram-pass work groups along the height.
        workgroups_y: u32,
        /// Whether the binding set had to be rebuilt this frame.
        rebuilt_bind_group: bool,
    },
}

/// A broken host integration, surfaced loudly instead of exporting a stale
/// exposure value.
#[derive(PartialEq, Eq, Structural, Clone, Copy, Debug)]
pub enum FrameError {
    /// The downstream view-uniforms destination does not exist.
    MissingExportTarget,
}

/// The instantaneous metered log-luminance of a frame's samples: the
/// trimmed weighted mean of their histogram.
pub open spec fn spec_frame_instant(samples: Seq<Sample>, config: AutoExposure) -> int {
    spec_average(
        spec_mass_seq(samples, config.min as int, config.max as int),
        config.min as int,
        config.max as int,
        config.low_percent as int,
        config.high_percent as int,
    )
}

/// The camera's exposure state after one frame: one adaptation step toward
/// the frame's metered luminance, clamped into the configured range.
pub open spec fn spec_frame_state(current: int, samples: Seq<Sample>, config: AutoExposure, dt: int) -> int {
    spec_clamp(
        spec_adapt(
            current,
            spec_frame_instant(samples, config),
            config.speed_up as int,
            config.speed_down as int,
            dt,
        ),
        config.min as int,
        config.max as int,
    )
}

/// The exposure value exported to tone mapping: the adapted state plus the
/// global correction plus the compensation curve's offset at that state.
pub open spec fn spec_frame_exposure(current_new: int, config: AutoExposure) -> int {
    current_new + config.correction + (match config.compensation_curve {
        Some(c) => spec_curve_eval(c.points@, current_new),
        None => 0,
    })
}

/// The metering node: advances one camera's metering state machine once per
/// frame, and owns the camera-independent binding-set cache.
pub struct MeteringNode {
    /// The memoized binding set shared across frames.
    pub bind_groups: BindGroupCache,
}

impl MeteringNode {
    /// The node's name in the host's render graph.
    pub const NAME: &'static str = "auto_exposure";

    /// A fresh node with an empty binding-set cache.
    pub fn new() -> (n: MeteringNode)
        ensures
            n.bind_groups.key is None,
    {
        MeteringNode { bind_groups: BindGroupCache::new() }
    }

    /// Runs one camera's metering for one frame.
    ///
    /// A non-HDR target or a still-compiling kernel variant skips the camera
    /// without touching any state; a missing export destination is a fatal
    /// host-integration error, also leaving every state untouched. Otherwise
    /// the histogram buffer is reset and refilled from this frame's samples,
    /// reduced to the trimmed mean, folded into the exposure state, and the
    /// exported exposure value is formed; the result reports the dispatch
    /// geometry and whether the binding set was rebuilt.
    pub fn run(
        &mut self,
        view: &FrameView,
        config: &AutoExposure,
        resources: &mut AutoExposureResources,
        state: &mut ExposureState,
        dt: i64,
    ) -> (r: Result<FrameRun, FrameError>)
        requires
            config.valid(),
            old(resources).histogram.wf(),
            spec_total_weight(view.samples@) <= u32::MAX,
            -LOG_BOUND <= old(state).current_log_luminance <= LOG_BOUND,
            0 <= dt <= RATE_BOUND,
        ensures
            final(resources).histogram.wf(),
            !view.hdr_target ==> r == Result::<FrameRun, FrameError>::Ok(FrameRun::SkippedNonHdr),
            view.hdr_target && !(view.histogram_ready && view.average_ready) ==> r == Result::<
                FrameRun,
                FrameError,
            >::Ok(FrameRun::SkippedPipelinePending),
            view.hdr_target && view.histogram_ready && view.average_ready
                && !view.export_target_exists ==> r == Result::<FrameRun, FrameError>::Err(
                FrameError::MissingExportTarget),
            !view.spec_runs() ==> *final(state) == *old(state) && *final(resources) == *old(
                resources,
            ) && *final(self) == *old(self),
            view.spec_runs() ==> forall|b: int|
                0 <= b < 256 ==> final(resources).histogram.count(b) == spec_bucket_mass(
                    view.samples@,
                    b,
                    config.min as int,
                    config.max as int,
                ),
            view.spec_runs() ==> final(state).current_log_luminance == spec_frame_state(
                old(state).current_log_luminance as int,
                view.samples@,
                *config,
                dt as int,
            ),
            view.spec_runs() ==> final(state).in_range(config.min as int, config.max as int),
            view.spec_runs() ==> final(self).bind_groups.key == Some(
                spec_bind_key(view.source_id, view.mask_id),
            ),
            view.spec_runs() ==> (r matches Result::<FrameRun, FrameError>::Ok(
                FrameRun::Metered {
                    instant_log_luminance,
                    exposure,
                    workgroups_x,
                    workgroups_y,
                    rebuilt_bind_group,
                },
            ) && instant_log_luminance == spec_frame_instant(view.samples@, *config)
                && config.min <= instant_log_luminance <= config.max && exposure
                == spec_frame_exposure(final(state).current_log_luminance as int, *config)
                && workgroups_x == (view.width + 15) / 16 && workgroups_y == (view.height + 15)
                / 16 && (rebuilt_bind_group <==> old(self).bind_groups.key != Some(
                spec_bind_key(view.source_id, view.mask_id),
            ))),
    {
        if !view.hdr_target {
            return Ok(FrameRun::SkippedNonHdr);
        }
        if !view.histogram_ready || !view.average_ready {
            return Ok(FrameRun::SkippedPipelinePending);
        }
        if !view.export_target_exists {
            return Err(FrameError::MissingExportTarget);
        }
        let (workgroups_x, workgroups_y): (u32, u32) = histogram_workgroups(
            view.width,
            view.height,
        );
        let rebuilt_bind_group: bool = self.bind_groups.refresh(view.source_id, view.mask_id);
        resources.histogram.reset();
        proof {
            assert forall|j: int|
                0 <= j < resources.histogram.counts_int().len() implies resources.histogram
                .counts_int()[j] == 0 by {
                assert(resources.histogram.count(j) == 0);
            }
            lemma_sum_zero_seq(resources.histogram.counts_int());
        }
        resources.histogram.accumulate(&view.samples, config.min, config.max);
        proof {
            assert forall|b: int|
                0 <= b < 256 implies resources.histogram.counts_int()[b] == spec_mass_seq(
                view.samples@,
                config.min as int,
                config.max as int,
            )[b] by {
                assert(resources.histogram.count(b) == spec_bucket_mass(
                    view.samples@,
                    b,
                    config.min as int,
                    config.max as int,
                ));
            }
            assert(resources.histogram.counts_int() =~= spec_mass_seq(
                view.samples@,
                config.min as int,
                config.max as int,
            ));
            lemma_histogram_mass_conserved(view.samples@, config.min as int, config.max as int);
        }
        let instant_log_luminance: i64 = average(
            &resources.histogram,
            config.min,
            config.max,
            config.low_percent,
            config.high_percent,
        );
        state.frame_update(instant_log_luminance, config, dt);
        let exposure: i64 = exported_exposure(
            state.current_log_luminance,
            config.correction,
            &config.compensation_curve,
        );
        Ok(
            FrameRun::Metered {
                instant_log_luminance,
                exposure,
                workgroups_x,
                workgroups_y,
                rebuilt_bind_group,
            },
        )
    }
}

} // verus!
