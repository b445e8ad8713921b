use editor_core::compiler::effects::{RenderRetimeAudio, RenderRetimeIntent, RenderRetimeSourceMapping};
use editor_core::compiler::filters::{
    apply_post_concat_visual_filters, compose_concatenated_visual_layers, compose_placed_visual_layers,
    deferred_full_canvas_fit_filters, fit_mode_filters, is_full_canvas_identity, transition_output_label,
    visual_source_filters, LayerDimensions, LayerPlacement, LayerTransform, SegmentAnchor, SegmentCrop,
    SegmentFitMode, SegmentScale, VisualLayerFilter, RenderTransitionIntent,
};
use editor_core::compiler::job::{RenderIntentSupport, RenderMaterial};
use editor_core::compiler::visual::{
    clipped_layer_source_timerange, compile_visual_layer, concat_visual_post_filters, material_dimensions_by_id,
    visual_layer_mask_dimensions, visual_layer_renders_full_canvas, LayerTimelineAlignment, RenderVideoLayer,
};
use editor_core::engine::model::{
    AudioRetimePolicy, BackgroundFilling, MaterialKind, RationalFrameRate, RetimeMode, SegmentRetiming,
    SourceTimerange, SpeedRatio, TargetTimerange,
};

fn dims(width: u32, height: u32) -> LayerDimensions {
    LayerDimensions { width, height }
}

fn unity_retime() -> RenderRetimeIntent {
    RenderRetimeIntent {
        retiming: SegmentRetiming {
            mode: RetimeMode::Constant { speed: SpeedRatio { numerator: 1, denominator: 1 } },
            audio_policy: AudioRetimePolicy::FollowVideoSpeed,
        },
        support: RenderIntentSupport::Supported,
        audio: RenderRetimeAudio {
            support: RenderIntentSupport::Supported,
            reason: String::new(),
            follow_speed: true,
            policy: AudioRetimePolicy::FollowVideoSpeed,
        },
        source_mapping: RenderRetimeSourceMapping {
            target_timerange: TargetTimerange::new(0, 0),
            retimed_source_timerange: SourceTimerange::new(0, 0),
        },
    }
}

fn transform(fit_mode: SegmentFitMode) -> LayerTransform {
    LayerTransform {
        fit_mode,
        crop: SegmentCrop { left_millis: 0, right_millis: 0, top_millis: 0, bottom_millis: 0 },
        scale: SegmentScale { x_millis: 1_000, y_millis: 1_000 },
        position_x: 0,
        position_y: 0,
        anchor: SegmentAnchor { x_millis: 500, y_millis: 500 },
        rotation_degrees: 0,
        opacity_millis: 1_000,
    }
}

fn layer(kind: MaterialKind, t: LayerTransform, background: BackgroundFilling, target: TargetTimerange) -> RenderVideoLayer {
    RenderVideoLayer {
        track_id: "track".to_owned(),
        segment_id: "segment".to_owned(),
        material_id: "material".to_owned(),
        material_kind: kind,
        stack_index: 0,
        source_timerange: SourceTimerange::new(0, target.duration),
        target_timerange: target,
        retime: unity_retime(),
        transform: t,
        background,
        visible: true,
        filters: Vec::new(),
        has_mask: false,
        has_visual_mask: false,
        blend_is_normal: true,
        visual_blend_is_normal: true,
        transition: None,
        has_keyframes: false,
    }
}

fn strings(items: &[&str]) -> Vec<String> {
    items.iter().map(|s| (*s).to_owned()).collect()
}

fn output() -> TargetTimerange {
    TargetTimerange::new(600_000, 100_000)
}

fn rate() -> RationalFrameRate {
    RationalFrameRate::new(30, 1)
}

#[test]
fn fit_modes_scale_fit_or_fill_and_crop_to_the_output() {
    let (fit, fitted) = fit_mode_filters(SegmentFitMode::Fit, dims(720, 1280), dims(1920, 1080));
    assert_eq!(fit, strings(&["scale=608:1080"]));
    assert_eq!(fitted, dims(608, 1080));

    let (fill, filled) = fit_mode_filters(SegmentFitMode::Fill, dims(720, 1280), dims(1920, 1080));
    assert_eq!(fill, strings(&["scale=1920:3413", "crop=1920:1080:0:1166"]));
    assert_eq!(filled, dims(1920, 1080));

    let (stretch, stretched) = fit_mode_filters(SegmentFitMode::Stretch, dims(1920, 1080), dims(1920, 1080));
    assert!(stretch.is_empty());
    assert_eq!(stretched, dims(1920, 1080));
    let (stretch, _) = fit_mode_filters(SegmentFitMode::Stretch, dims(1280, 720), dims(1920, 1080));
    assert_eq!(stretch, strings(&["scale=1920:1080"]));
}

#[test]
fn deferred_fit_always_scales_to_the_output() {
    assert_eq!(
        deferred_full_canvas_fit_filters(SegmentFitMode::Stretch, dims(1920, 1080), dims(1920, 1080)),
        strings(&["scale=1920:1080"])
    );
    assert_eq!(
        deferred_full_canvas_fit_filters(SegmentFitMode::Fit, dims(720, 1280), dims(1920, 1080)),
        strings(&["scale=608:1080"])
    );
}

#[test]
fn full_canvas_identity_ignores_whole_turns_only() {
    let mut t = transform(SegmentFitMode::Stretch);
    assert!(is_full_canvas_identity(&t));
    t.rotation_degrees = -360;
    assert!(is_full_canvas_identity(&t));
    t.rotation_degrees = 90;
    assert!(!is_full_canvas_identity(&t));
    let mut t = transform(SegmentFitMode::Fit);
    assert!(!is_full_canvas_identity(&t));
    t.fit_mode = SegmentFitMode::Stretch;
    t.opacity_millis = 999;
    assert!(!is_full_canvas_identity(&t));
}

#[test]
fn visual_sources_loop_images_and_trim_videos() {
    let clip = SourceTimerange::new(700_000, 100_000);
    assert_eq!(
        visual_source_filters(MaterialKind::Video, &unity_retime(), &clip, 0, &rate()),
        strings(&["trim=start=0.700000:duration=0.100000", "setpts=PTS-STARTPTS"])
    );
    assert_eq!(
        visual_source_filters(MaterialKind::Image, &unity_retime(), &clip, 250_000, &rate()),
        strings(&[
            "loop=loop=-1:size=1:start=0",
            "fps=30/1",
            "trim=duration=0.100000",
            "setpts=PTS-STARTPTS+0.250000/TB",
        ])
    );
}

fn placed(label: &str, x: i64, y: i64) -> VisualLayerFilter {
    VisualLayerFilter {
        segment_id: label.to_owned(),
        label: label.to_owned(),
        transition: None,
        dimensions: dims(1920, 1080),
        placement: LayerPlacement { x, y },
        active_start: 0,
        active_end: 100_000,
        lines: Vec::new(),
    }
}

#[test]
fn placed_layers_are_overlaid_on_the_canvas_in_order() {
    let mut lines = strings(&["earlier"]);
    let layers = vec![placed("v0", 0, 0), placed("v1", 768, 405)];
    let out = compose_placed_visual_layers(&mut lines, "black", dims(1920, 1080), &rate(), 100_000, &layers);
    assert_eq!(out, "vbase2");
    assert_eq!(
        lines,
        strings(&[
            "earlier",
            "color=c=black:s=1920x1080:r=30/1:d=0.100000[vbase0]",
            "[vbase0][v0]overlay=x=0:y=0:enable='between(t,0.000000,0.100000)'[vbase1]",
            "[vbase1][v1]overlay=x=768:y=405:enable='between(t,0.000000,0.100000)'[vbase2]",
        ])
    );

    let mut empty = Vec::new();
    let out = compose_placed_visual_layers(&mut empty, "0x224466", dims(640, 360), &rate(), 1_500_000, &Vec::new());
    assert_eq!(out, "vbase0");
    assert_eq!(empty, strings(&["color=c=0x224466:s=640x360:r=30/1:d=1.500000[vbase0]"]));
}

#[test]
fn concatenated_layers_are_joined_then_post_filtered() {
    let two = vec![placed("v0", 0, 0), placed("v1", 0, 0)];
    let mut lines = Vec::new();
    let out = compose_concatenated_visual_layers(&mut lines, &two, &strings(&["scale=1920:1080"]));
    assert_eq!(out, "vconcat0");
    assert_eq!(
        lines,
        strings(&["[v0][v1]concat=n=2:v=1:a=0[vconcatraw0]", "[vconcatraw0]scale=1920:1080[vconcat0]"])
    );

    let mut lines = Vec::new();
    let out = compose_concatenated_visual_layers(&mut lines, &two, &Vec::new());
    assert_eq!(out, "vconcat0");
    assert_eq!(lines, strings(&["[v0][v1]concat=n=2:v=1:a=0[vconcat0]"]));

    let one = vec![placed("v0", 0, 0)];
    let mut lines = Vec::new();
    assert_eq!(compose_concatenated_visual_layers(&mut lines, &one, &Vec::new()), "v0");
    assert!(lines.is_empty());
    let out = compose_concatenated_visual_layers(&mut lines, &one, &strings(&["scale=1920:1080"]));
    assert_eq!(out, "vconcat0");
    assert_eq!(lines, strings(&["[v0]scale=1920:1080[vconcat0]"]));
}

#[test]
fn post_concat_filters_are_skipped_when_there_are_none() {
    let mut lines = Vec::new();
    assert_eq!(apply_post_concat_visual_filters(&mut lines, "in", "out", &Vec::new()), "in");
    assert!(lines.is_empty());
    assert_eq!(apply_post_concat_visual_filters(&mut lines, "in", "out", &strings(&["a", "b"])), "out");
    assert_eq!(lines, strings(&["[in]a,b[out]"]));
}

#[test]
fn transition_labels_use_sanitized_segment_ids() {
    let t = |from: &str, to: &str| RenderTransitionIntent {
        from_segment_id: from.to_owned(),
        to_segment_id: to.to_owned(),
        support: RenderIntentSupport::Supported,
        reason: String::new(),
        window: TargetTimerange::new(0, 0),
    };
    assert_eq!(transition_output_label(&t("seg a", "seg/b")), "vtransition_seg-a_to_seg-b");
    assert_eq!(transition_output_label(&t("a_1", "b-2")), "vtransition_a_1_to_b-2");
}

#[test]
fn cropped_scaled_faded_image_layer_compiles_to_two_stages() {
    let mut t = transform(SegmentFitMode::Fit);
    t.crop.left_millis = 100;
    t.scale = SegmentScale { x_millis: 500, y_millis: 500 };
    t.position_x = 250;
    t.position_y = -250;
    t.opacity_millis = 760;
    let l = layer(MaterialKind::Image, t, BackgroundFilling::NoFilling, output());
    let compiled = compile_visual_layer(
        1,
        1,
        &l,
        &SourceTimerange::new(0, 100_000),
        dims(640, 360),
        dims(1920, 1080),
        &rate(),
        &output(),
        LayerTimelineAlignment::OutputTimeline,
        &Vec::new(),
        &Vec::new(),
        dims(1, 1),
        "0.000000",
    );
    assert_eq!(compiled.label, "v1");
    assert_eq!(compiled.segment_id, "segment");
    assert_eq!(
        compiled.lines,
        strings(&[
            "[1:v]loop=loop=-1:size=1:start=0,fps=30/1,trim=duration=0.100000,setpts=PTS-STARTPTS,crop=576:360:64:0,scale=1728:1080[vstage1a]",
            "[vstage1a]scale=864:540,format=rgba,colorchannelmixer=aa=0.760[v1]",
        ])
    );
    assert_eq!(compiled.dimensions, dims(864, 540));
    assert_eq!(compiled.placement, LayerPlacement { x: 768, y: 405 });
    assert_eq!((compiled.active_start, compiled.active_end), (0, 100_000));
}

#[test]
fn fitted_video_layer_without_transform_passes_through_null() {
    let l = layer(MaterialKind::Video, transform(SegmentFitMode::Fit), BackgroundFilling::NoFilling, output());
    let compiled = compile_visual_layer(
        0,
        2,
        &l,
        &SourceTimerange::new(700_000, 100_000),
        dims(1280, 720),
        dims(1920, 1080),
        &rate(),
        &output(),
        LayerTimelineAlignment::OutputTimeline,
        &Vec::new(),
        &Vec::new(),
        dims(1, 1),
        "",
    );
    assert_eq!(
        compiled.lines,
        strings(&[
            "[2:v]trim=start=0.700000:duration=0.100000,setpts=PTS-STARTPTS,scale=1920:1080[vstage0a]",
            "[vstage0a]null[v0]",
        ])
    );
    assert_eq!(compiled.dimensions, dims(1920, 1080));
    assert_eq!(compiled.placement, LayerPlacement { x: 0, y: 0 });
}

#[test]
fn narrow_layer_is_centred_on_its_background_then_masked_and_rotated() {
    let mut t = transform(SegmentFitMode::Fit);
    t.rotation_degrees = 15;
    let l = layer(
        MaterialKind::Video,
        t,
        BackgroundFilling::SolidColor { color: "#224466".to_owned() },
        output(),
    );
    assert_eq!(
        visual_layer_mask_dimensions(&l, dims(720, 1280), dims(1920, 1080), LayerTimelineAlignment::OutputTimeline),
        dims(1920, 1080)
    );
    let compiled = compile_visual_layer(
        1,
        1,
        &l,
        &SourceTimerange::new(0, 100_000),
        dims(720, 1280),
        dims(1920, 1080),
        &rate(),
        &output(),
        LayerTimelineAlignment::OutputTimeline,
        &strings(&["eq=contrast=1.2"]),
        &strings(&["geq=a=255"]),
        dims(2135, 1541),
        "0.261799",
    );
    assert_eq!(
        compiled.lines,
        strings(&[
            "[1:v]trim=start=0.000000:duration=0.100000,setpts=PTS-STARTPTS,scale=608:1080[vstage1a]",
            "color=c=0x224466:s=1920x1080:r=30/1:d=0.100000[vsegbg1]",
            "[vsegbg1][vstage1a]overlay=x=656:y=0:shortest=1[vstage1b]",
            "[vstage1b]eq=contrast=1.2[vstage1effects]",
            "[vstage1effects]geq=a=255[vstage1mask]",
            "[vstage1mask]format=rgba,rotate=0.261799:ow=rotw(0.261799):oh=roth(0.261799):c=none[v1]",
        ])
    );
    assert_eq!(compiled.dimensions, dims(2135, 1541));
}

#[test]
fn identity_layer_is_compiled_in_one_line_with_its_effects_and_mask() {
    let target = TargetTimerange::new(650_000, 100_000);
    let l = layer(MaterialKind::Video, transform(SegmentFitMode::Stretch), BackgroundFilling::Black, target);
    assert_eq!(
        visual_layer_mask_dimensions(&l, dims(1280, 720), dims(1920, 1080), LayerTimelineAlignment::OutputTimeline),
        dims(1920, 1080)
    );
    let compiled = compile_visual_layer(
        0,
        0,
        &l,
        &SourceTimerange::new(0, 100_000),
        dims(1280, 720),
        dims(1920, 1080),
        &rate(),
        &output(),
        LayerTimelineAlignment::OutputTimeline,
        &strings(&["eq=contrast=1.2"]),
        &strings(&["geq=a=255"]),
        dims(1, 1),
        "",
    );
    assert_eq!(
        compiled.lines,
        strings(&[
            "[0:v]trim=start=0.000000:duration=0.100000,setpts=PTS-STARTPTS+0.050000/TB,scale=1920:1080,eq=contrast=1.2,geq=a=255[v0]",
        ])
    );
    assert_eq!(compiled.dimensions, dims(1920, 1080));
    assert_eq!(compiled.placement, LayerPlacement { x: 0, y: 0 });
    assert_eq!((compiled.active_start, compiled.active_end), (50_000, 150_000));
}

#[test]
fn segment_local_layers_keep_their_own_timeline_and_defer_fitting() {
    let target = TargetTimerange::new(650_000, 100_000);
    let mut t = transform(SegmentFitMode::Fit);
    t.crop.left_millis = 100;
    let l = layer(MaterialKind::Video, t, BackgroundFilling::NoFilling, target);
    assert_eq!(
        visual_layer_mask_dimensions(&l, dims(1280, 720), dims(1920, 1080), LayerTimelineAlignment::SegmentLocal),
        dims(1280, 720)
    );
    let compiled = compile_visual_layer(
        3,
        4,
        &l,
        &SourceTimerange::new(0, 100_000),
        dims(1280, 720),
        dims(1920, 1080),
        &rate(),
        &output(),
        LayerTimelineAlignment::SegmentLocal,
        &Vec::new(),
        &Vec::new(),
        dims(1, 1),
        "",
    );
    assert_eq!(
        compiled.lines,
        strings(&[
            "[4:v]trim=start=0.000000:duration=0.100000,setpts=PTS-STARTPTS[vstage3a]",
            "[vstage3a]null[v3]",
        ])
    );
    assert_eq!((compiled.active_start, compiled.active_end), (50_000, 150_000));
}

fn material(id: &str, width: Option<u32>, height: Option<u32>) -> RenderMaterial {
    RenderMaterial {
        material_id: id.to_owned(),
        kind: MaterialKind::Video,
        uri: format!("file:///{id}.mp4"),
        has_video: true,
        has_audio: false,
        width,
        height,
    }
}

#[test]
fn material_sizes_are_looked_up_by_id_with_the_last_entry_winning() {
    let materials = vec![
        material("a", Some(1280), Some(720)),
        material("b", None, Some(0)),
        material("a", Some(640), Some(360)),
    ];
    assert_eq!(material_dimensions_by_id(&materials, "a"), Some(dims(640, 360)));
    assert_eq!(material_dimensions_by_id(&materials, "b"), Some(dims(1, 1)));
    assert_eq!(material_dimensions_by_id(&materials, "c"), None);
}

fn concat_layer(target_start: u64, duration: u64) -> RenderVideoLayer {
    layer(
        MaterialKind::Video,
        transform(SegmentFitMode::Stretch),
        BackgroundFilling::NoFilling,
        TargetTimerange::new(target_start, duration),
    )
}

#[test]
fn plain_full_canvas_layers_are_recognised() {
    let materials = vec![material("material", Some(1920), Some(1080))];
    let l = concat_layer(600_000, 50_000);
    assert!(visual_layer_renders_full_canvas(&l, dims(1920, 1080), &materials));
    let mut fitted = concat_layer(600_000, 50_000);
    fitted.transform.fit_mode = SegmentFitMode::Fit;
    assert!(visual_layer_renders_full_canvas(&fitted, dims(1920, 1080), &materials));
    let narrow = vec![material("material", Some(720), Some(1280))];
    assert!(!visual_layer_renders_full_canvas(&fitted, dims(1920, 1080), &narrow));
    let mut hidden = concat_layer(600_000, 50_000);
    hidden.visible = false;
    assert!(!visual_layer_renders_full_canvas(&hidden, dims(1920, 1080), &materials));
    let mut masked = concat_layer(600_000, 50_000);
    masked.has_mask = true;
    assert!(!visual_layer_renders_full_canvas(&masked, dims(1920, 1080), &materials));
}

#[test]
fn layers_that_tile_the_output_share_their_post_filters() {
    let materials = vec![material("material", Some(1280), Some(720))];
    let layers = vec![concat_layer(600_000, 50_000), concat_layer(650_000, 50_000)];
    assert_eq!(
        concat_visual_post_filters(&layers, &output(), dims(1920, 1080), &materials),
        Some(strings(&["scale=1920:1080"]))
    );
    let same_size = vec![material("material", Some(1920), Some(1080))];
    assert_eq!(
        concat_visual_post_filters(&layers, &output(), dims(1920, 1080), &same_size),
        Some(strings(&["scale=1920:1080"]))
    );
}

#[test]
fn layers_with_gaps_transitions_or_other_stacks_are_not_concatenated() {
    let materials = vec![material("material", Some(1920), Some(1080))];
    assert_eq!(concat_visual_post_filters(&Vec::new(), &output(), dims(1920, 1080), &materials), None);
    let gap = vec![concat_layer(600_000, 40_000), concat_layer(650_000, 50_000)];
    assert_eq!(concat_visual_post_filters(&gap, &output(), dims(1920, 1080), &materials), None);
    let mut transition = vec![concat_layer(600_000, 50_000), concat_layer(650_000, 50_000)];
    transition[1].transition = Some(RenderTransitionIntent {
        from_segment_id: "segment".to_owned(),
        to_segment_id: "next".to_owned(),
        support: RenderIntentSupport::Supported,
        reason: String::new(),
        window: TargetTimerange::new(640_000, 20_000),
    });
    assert_eq!(concat_visual_post_filters(&transition, &output(), dims(1920, 1080), &materials), None);
    let mut stacked = vec![concat_layer(600_000, 50_000), concat_layer(650_000, 50_000)];
    stacked[1].stack_index = 1;
    assert_eq!(concat_visual_post_filters(&stacked, &output(), dims(1920, 1080), &materials), None);
    let outside = vec![concat_layer(0, 100_000)];
    assert_eq!(concat_visual_post_filters(&outside, &output(), dims(1920, 1080), &materials), None);
}

#[test]
fn layers_with_different_post_filters_are_not_concatenated() {
    let materials = vec![
        material("material", Some(1920), Some(1080)),
        material("other", Some(1280), Some(960)),
    ];
    let mut layers = vec![concat_layer(600_000, 50_000), concat_layer(650_000, 50_000)];
    layers[1].material_id = "other".to_owned();
    layers[1].transform.fit_mode = SegmentFitMode::Fill;
    assert_eq!(concat_visual_post_filters(&layers, &output(), dims(1920, 1080), &materials), None);
    let mut filled = vec![layers[1].clone(), layers[1].clone()];
    filled[0].target_timerange = TargetTimerange::new(600_000, 50_000);
    assert_eq!(
        concat_visual_post_filters(&filled, &output(), dims(1920, 1080), &materials),
        Some(strings(&["scale=1920:1440", "crop=1920:1080:0:180"]))
    );
}

#[test]
fn layer_source_inside_the_window_is_clipped() {
    let l = concat_layer(550_000, 100_000);
    assert_eq!(clipped_layer_source_timerange(&l, &output()), Some(SourceTimerange::new(50_000, 50_000)));
    let far = concat_layer(0, 100_000);
    assert_eq!(clipped_layer_source_timerange(&far, &output()), None);
}
