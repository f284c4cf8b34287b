//! The frame orchestrator and the resource caches: the kernel parameter
//! block's byte layout, pipeline specialization and its cache, the
//! binding-set cache, the per-camera buffer lifecycle, and a camera's whole
//! frame.

use auto_exposure::adapt::ExposureState;
use auto_exposure::histogram::Sample;
use auto_exposure::node::{
    histogram_workgroups, BindGroupCache, FrameError, FrameRun, FrameView, MeteringNode,
};
use auto_exposure::pipeline::{
    AutoExposureParams, AutoExposurePipeline, BindGroupLayoutEntry, BindingKind, Pass,
    SpecializedComputePipelines,
};
use auto_exposure::{
    prepare_auto_exposure_buffers, queue_view_auto_exposure_pipelines, AutoExposure,
    AutoExposureBuffers, AutoExposureResources, ExtractedAutoExposureBuffers, FP_ONE,
};

fn params() -> AutoExposureParams {
    AutoExposureParams {
        min_log_lum: 0x0102_0304,
        inv_log_lum_range: 0x1112_1314,
        log_lum_range: 0x2122_2324,
        low_percent: 60,
        high_percent: 95,
        speed_up: 0x3132_3334,
        speed_down: 0x4142_4344,
    }
}

#[test]
fn parameter_block_layout_is_little_endian_in_field_order() {
    let bytes = params().to_bytes();
    assert_eq!(bytes.len(), 28);
    assert_eq!(&bytes[0..4], &[0x04, 0x03, 0x02, 0x01]);
    assert_eq!(&bytes[4..8], &[0x14, 0x13, 0x12, 0x11]);
    assert_eq!(&bytes[8..12], &[0x24, 0x23, 0x22, 0x21]);
    assert_eq!(&bytes[12..16], &[60, 0, 0, 0]);
    assert_eq!(&bytes[16..20], &[95, 0, 0, 0]);
    assert_eq!(&bytes[20..24], &[0x34, 0x33, 0x32, 0x31]);
    assert_eq!(&bytes[24..28], &[0x44, 0x43, 0x42, 0x41]);
}

#[test]
fn bind_group_layout_matches_the_kernel_interface() {
    let entries = AutoExposurePipeline::layout_entries();
    assert_eq!(entries.len(), 6);
    for (i, e) in entries.iter().enumerate() {
        assert_eq!(e.binding, i as u32);
    }
    assert_eq!(
        entries[0],
        BindGroupLayoutEntry { binding: 0, kind: BindingKind::Uniform { min_size: 28 } }
    );
    assert_eq!(entries[1].kind, BindingKind::Texture2d);
    assert_eq!(entries[2].kind, BindingKind::Texture2d);
    assert_eq!(entries[3].kind, BindingKind::Texture1d);
    // The histogram: 256 counters of 4 bytes; the exposure state: one scalar.
    assert_eq!(entries[4].kind, BindingKind::Storage { min_size: 1024 });
    assert_eq!(entries[5].kind, BindingKind::Storage { min_size: 4 });
}

#[test]
fn specialization_picks_the_pass_entry_point() {
    let pipeline = AutoExposurePipeline { histogram_layout: 7, histogram_shader: 9 };
    let hist = pipeline.specialize(Pass::Histogram);
    assert_eq!(hist.entry_point, "computeHistogram");
    assert_eq!(hist.layout, 7);
    assert_eq!(hist.shader, 9);
    let avg = pipeline.specialize(Pass::Average);
    assert_eq!(avg.entry_point, "computeAverage");
}

#[test]
fn pipeline_cache_compiles_each_variant_once() {
    let mut cache = SpecializedComputePipelines::new();
    let h1 = cache.specialize(Pass::Histogram);
    let a1 = cache.specialize(Pass::Average);
    let h2 = cache.specialize(Pass::Histogram);
    let a2 = cache.specialize(Pass::Average);
    assert_eq!(h1, h2);
    assert_eq!(a1, a2);
    assert_ne!(h1, a1);
}

#[test]
fn bind_group_cache_rebuilds_only_on_identity_change() {
    let mut cache = BindGroupCache::new();
    assert!(cache.refresh(1, 2));
    assert!(!cache.refresh(1, 2));
    assert!(cache.refresh(1, 3));
    assert!(cache.refresh(4, 3));
    assert!(!cache.refresh(4, 3));
}

#[test]
fn buffer_lifecycle_follows_camera_add_and_remove() {
    let mut buffers = AutoExposureBuffers::new();
    let extracted = ExtractedAutoExposureBuffers { changed: vec![10, 20], removed: vec![] };
    prepare_auto_exposure_buffers(&mut buffers, &extracted);
    assert!(buffers.contains(10));
    assert!(buffers.contains(20));
    assert!(!buffers.contains(30));
    assert_eq!(buffers.get_state(10).unwrap().current_log_luminance, 0);

    // An adapted state survives frames in which the camera merely persists.
    assert!(buffers.set_state(10, ExposureState { current_log_luminance: 42 }));
    let extracted = ExtractedAutoExposureBuffers { changed: vec![], removed: vec![] };
    prepare_auto_exposure_buffers(&mut buffers, &extracted);
    assert_eq!(buffers.get_state(10).unwrap().current_log_luminance, 42);

    // A camera re-added starts over; a removed camera loses its buffer.
    let extracted = ExtractedAutoExposureBuffers { changed: vec![10], removed: vec![20] };
    prepare_auto_exposure_buffers(&mut buffers, &extracted);
    assert_eq!(buffers.get_state(10).unwrap().current_log_luminance, 0);
    assert!(!buffers.contains(20));
}

#[test]
fn removal_wins_over_insertion_in_one_frame() {
    let mut buffers = AutoExposureBuffers::new();
    let extracted = ExtractedAutoExposureBuffers { changed: vec![7], removed: vec![7] };
    prepare_auto_exposure_buffers(&mut buffers, &extracted);
    assert!(!buffers.contains(7));
    assert_eq!(buffers.get_state(7), None);
}

#[test]
fn queue_reuses_pipelines_and_keeps_existing_state() {
    let mut pipelines = SpecializedComputePipelines::new();
    let mut buffers = AutoExposureBuffers::new();
    let config = AutoExposure::default();
    let view1 = queue_view_auto_exposure_pipelines(&mut pipelines, &mut buffers, 5, &config, params());
    assert_ne!(view1.histogram_pipeline, view1.mean_luminance_pipeline);
    assert_eq!(view1.state, 5);
    assert_eq!(view1.metering_mask, None);
    assert!(buffers.contains(5));

    buffers.set_state(5, ExposureState { current_log_luminance: 99 });
    let view2 = queue_view_auto_exposure_pipelines(&mut pipelines, &mut buffers, 5, &config, params());
    // The pipeline cache hands out the same variants again, and the
    // camera's adapted state is kept, not recreated.
    assert_eq!(view2.histogram_pipeline, view1.histogram_pipeline);
    assert_eq!(view2.mean_luminance_pipeline, view1.mean_luminance_pipeline);
    assert_eq!(buffers.get_state(5).unwrap().current_log_luminance, 99);
}

fn frame_view(samples: Vec<Sample>) -> FrameView {
    FrameView {
        hdr_target: true,
        histogram_ready: true,
        average_ready: true,
        width: 64,
        height: 48,
        samples,
        source_id: 1,
        mask_id: 2,
        export_target_exists: true,
    }
}

fn mid_gray_samples() -> Vec<Sample> {
    vec![Sample { log_lum: -FP_ONE, weight: 1 }; 100]
}

#[test]
fn node_name_is_stable() {
    assert_eq!(MeteringNode::NAME, "auto_exposure");
}

#[test]
fn workgroups_tile_the_viewport() {
    assert_eq!(histogram_workgroups(64, 48), (4, 3));
    assert_eq!(histogram_workgroups(65, 49), (5, 4));
    assert_eq!(histogram_workgroups(1, 1), (1, 1));
    assert_eq!(histogram_workgroups(0, 0), (0, 0));
    assert_eq!(histogram_workgroups(u32::MAX, 16), (268_435_456, 1));
}

#[test]
fn zero_area_viewport_frame_meters_the_midpoint() {
    // End to end: a zero-area viewport contributes no samples; the reducer
    // falls back to the range midpoint and adaptation pulls toward it.
    let mut node = MeteringNode::new();
    let mut resources = AutoExposureResources::new();
    let mut state = ExposureState::new();
    let mut view = frame_view(Vec::new());
    view.width = 0;
    view.height = 0;
    let r = node.run(&view, &AutoExposure::default(), &mut resources, &mut state, 17);
    match r {
        Ok(FrameRun::Metered { instant_log_luminance, workgroups_x, workgroups_y, .. }) => {
            // The default range [-8, 8] has midpoint zero.
            assert_eq!(instant_log_luminance, 0);
            assert_eq!(workgroups_x, 0);
            assert_eq!(workgroups_y, 0);
        },
        other => panic!("metering did not run: {:?}", other),
    }
    assert_eq!(state.current_log_luminance, 0);
}

#[test]
fn non_hdr_target_is_skipped() {
    let mut node = MeteringNode::new();
    let mut resources = AutoExposureResources::new();
    let mut state = ExposureState::new();
    let mut view = frame_view(mid_gray_samples());
    view.hdr_target = false;
    let r = node.run(&view, &AutoExposure::default(), &mut resources, &mut state, 17);
    assert_eq!(r, Ok(FrameRun::SkippedNonHdr));
    assert_eq!(state.current_log_luminance, 0);
}

#[test]
fn pending_pipeline_is_skipped() {
    let mut node = MeteringNode::new();
    let mut resources = AutoExposureResources::new();
    let mut state = ExposureState::new();
    let mut view = frame_view(mid_gray_samples());
    view.average_ready = false;
    let r = node.run(&view, &AutoExposure::default(), &mut resources, &mut state, 17);
    assert_eq!(r, Ok(FrameRun::SkippedPipelinePending));
    assert_eq!(state.current_log_luminance, 0);
}

#[test]
fn missing_export_target_is_a_loud_error() {
    let mut node = MeteringNode::new();
    let mut resources = AutoExposureResources::new();
    let mut state = ExposureState::new();
    let mut view = frame_view(mid_gray_samples());
    view.export_target_exists = false;
    let r = node.run(&view, &AutoExposure::default(), &mut resources, &mut state, 17);
    assert_eq!(r, Err(FrameError::MissingExportTarget));
    assert_eq!(state.current_log_luminance, 0);
}

#[test]
fn mid_gray_frame_meters_and_adapts() {
    // The end-to-end mid-gray scenario: the histogram lands in one bucket,
    // the reducer returns its center, and one frame at dt = 1/60 s moves
    // the state by speed_down * dt of the gap toward it.
    let mut node = MeteringNode::new();
    let mut resources = AutoExposureResources::new();
    let mut state = ExposureState::new();
    let view = frame_view(mid_gray_samples());
    let r = node.run(&view, &AutoExposure::default(), &mut resources, &mut state, 17);
    match r {
        Ok(FrameRun::Metered {
            instant_log_luminance,
            exposure,
            workgroups_x,
            workgroups_y,
            rebuilt_bind_group,
        }) => {
            assert_eq!(instant_log_luminance, -1029);
            assert_eq!(state.current_log_luminance, -17);
            assert_eq!(exposure, -17);
            assert_eq!(workgroups_x, 4);
            assert_eq!(workgroups_y, 3);
            assert!(rebuilt_bind_group);
        },
        other => panic!("metering did not run: {:?}", other),
    }
    assert_eq!(resources.histogram.counts[111], 100);

    // The next frame with the same source and mask reuses the binding set.
    let r2 = node.run(&view, &AutoExposure::default(), &mut resources, &mut state, 17);
    match r2 {
        Ok(FrameRun::Metered { rebuilt_bind_group, .. }) => assert!(!rebuilt_bind_group),
        other => panic!("metering did not run: {:?}", other),
    }
}
