use editor_core::compiler::ass::{BundledFontEntry, RenderTextOverlay, RenderTextPlan};
use editor_core::compiler::compile::compile_ffmpeg_job;
use editor_core::compiler::effects::{RenderRetimeAudio, RenderRetimeIntent, RenderRetimeSourceMapping};
use editor_core::compiler::filters::{
    LayerDimensions, LayerTransform, RenderAudioMix, RenderTransitionIntent, SegmentAnchor, SegmentCrop,
    SegmentFitMode, SegmentScale,
};
use editor_core::compiler::job::{
    collect_inputs, CompileContext, CompilerCapabilities, ExportMp4Preset, FfmpegCompileErrorKind, FfmpegOutputKind,
    FfmpegSidecarKind, OutputDimensionsSnapshot, PreviewFrameFormat, RenderAudioCodec, RenderContainer,
    RenderIntentSupport, RenderMaterial, RenderOutputProfile, RenderVideoCodec, TextRenderCapability,
};
use editor_core::compiler::script::{generate_filter_script, LayerExtras, RenderGraphPlan};
use editor_core::compiler::visual::RenderVideoLayer;
use editor_core::engine::frame_state::resolve_frame_state;
use editor_core::engine::model::{
    AudioRetimePolicy, BackgroundFilling, CanvasBackground, CanvasConfig, Draft, Material, MaterialKind,
    MaterialStatus, RationalFrameRate, RetimeMode, Segment, SegmentRetiming, SegmentVisual, SourceTimerange,
    SpeedRatio, TargetTimerange, TextAlignment, TextBackground, TextBox, TextFont, TextLayoutRegion, TextSegment,
    TextSegmentSource, TextShadow, TextStroke, TextStyle, TextWrapping, Track, TrackKind, VisualTransform,
};
use editor_core::engine::normalize::{normalize_draft, EngineProfile};
use editor_core::engine::text_layout::{BundledTextFont, ResolvedTextOverlay};

fn bundled_text_font() -> BundledTextFont {
    BundledTextFont {
        family: "PingFang SC".to_owned(),
        font_ref: "bundled:text-default".to_owned(),
        relative_path: "fonts/Bundled-Sans.ttf".to_owned(),
    }
}

fn registry() -> Vec<BundledFontEntry> {
    vec![BundledFontEntry { font_ref: "bundled:text-default".to_owned(), family: "Bundled Sans".to_owned() }]
}

fn identity_retiming() -> SegmentRetiming {
    SegmentRetiming { mode: RetimeMode::Constant { speed: SpeedRatio::one() }, audio_policy: AudioRetimePolicy::FollowVideoSpeed }
}

fn default_visual() -> SegmentVisual {
    SegmentVisual {
        visible: true,
        transform: VisualTransform {
            position_x: 0,
            position_y: 0,
            scale_x_millis: 1000,
            scale_y_millis: 1000,
            rotation_degrees: 0,
            opacity_millis: 1000,
            crop: SegmentCrop { left_millis: 0, right_millis: 0, top_millis: 0, bottom_millis: 0 },
        },
        fit_mode: SegmentFitMode::Fit,
        background_filling: BackgroundFilling::NoFilling,
        blend_reference: None,
        mask_reference: None,
    }
}

fn styled_text(content: &str, font_ref: Option<&str>) -> TextSegment {
    TextSegment {
        content: content.to_owned(),
        source: TextSegmentSource::Subtitle,
        style: TextStyle {
            font: TextFont { family: String::new(), font_ref: font_ref.map(|r| r.to_owned()) },
            font_size: 48,
            color: "#33ccff".to_owned(),
            alignment: TextAlignment::Center,
            line_height_millis: 1500,
            letter_spacing_millis: 125,
            stroke: Some(TextStroke { color: "#101010".to_owned(), width: 2 }),
            shadow: Some(TextShadow { color: "#000000".to_owned(), offset_x: 3, offset_y: -4, blur: 1 }),
            background: Some(TextBackground { color: "#202020".to_owned() }),
        },
        text_box: TextBox { width_millis: 600, height_millis: 260 },
        layout_region: TextLayoutRegion { x_millis: 100, y_millis: 700, width_millis: 800, height_millis: 200 },
        wrapping: TextWrapping::Auto,
        bubble: None,
        effect: None,
    }
}

fn text_draft(text: TextSegment) -> Draft {
    let empty_track = |id: &str| Track {
        track_id: id.to_owned(),
        kind: TrackKind::Video,
        name: id.to_owned(),
        muted: false,
        visible: true,
        segments: Vec::new(),
    };
    let text_segment = Segment {
        segment_id: "text-a".to_owned(),
        material_id: "text-material".to_owned(),
        source_timerange: SourceTimerange::new(0, 1_000_000),
        target_timerange: TargetTimerange::new(0, 1_000_000),
        retiming: identity_retiming(),
        keyframes: Vec::new(),
        text: Some(text),
        volume_level_millis: 1000,
        visual: default_visual(),
    };
    Draft {
        draft_id: "draft-compiler".to_owned(),
        name: String::new(),
        canvas_config: CanvasConfig {
            frame_rate: RationalFrameRate::new(30, 1),
            width: 1920,
            height: 1080,
            background: CanvasBackground::Black,
        },
        tracks: vec![
            empty_track("video-track"),
            empty_track("overlay-track"),
            Track {
                track_id: "text-track".to_owned(),
                kind: TrackKind::Text,
                name: "文字".to_owned(),
                muted: false,
                visible: true,
                segments: vec![text_segment],
            },
        ],
        materials: vec![Material {
            material_id: "text-material".to_owned(),
            kind: MaterialKind::Text,
            uri: "text://title".to_owned(),
            display_name: "text-material".to_owned(),
            status: MaterialStatus::Available,
            duration: Some(1_000_000),
            width: None,
            height: None,
            has_video: false,
            has_audio: false,
        }],
    }
}

fn resolved_overlay(text: TextSegment) -> ResolvedTextOverlay {
    let ok: Result<(), String> = Ok(());
    let normalized = normalize_draft(&text_draft(text), &EngineProfile::mvp_default(&bundled_text_font()), &ok).unwrap();
    let mut frame = resolve_frame_state(&normalized, 0).unwrap();
    frame.text_overlays.remove(0)
}

fn render_overlay(text: TextSegment) -> RenderTextOverlay {
    RenderTextOverlay {
        overlay: resolved_overlay(text),
        material_id: "text-material".to_owned(),
        filters: Vec::new(),
        transition: None,
    }
}


fn env_font_capability() -> TextRenderCapability {
    TextRenderCapability {
        env_text_font_path: Some("/fonts/PingFang.ttc".to_owned()),
        available_font_paths: vec!["/fonts/PingFang.ttc".to_owned()],
        ..TextRenderCapability::default()
    }
}

fn context(output_path: &str) -> CompileContext {
    CompileContext::new(output_path, "/derived")
        .with_capabilities(CompilerCapabilities { text: env_font_capability(), ..CompilerCapabilities::default() })
}

fn unity() -> RenderRetimeIntent {
    RenderRetimeIntent {
        retiming: identity_retiming(),
        support: RenderIntentSupport::Supported,
        audio: RenderRetimeAudio {
            support: RenderIntentSupport::Supported,
            reason: String::new(),
            follow_speed: true,
            policy: AudioRetimePolicy::FollowVideoSpeed,
        },
        source_mapping: RenderRetimeSourceMapping {
            target_timerange: TargetTimerange::new(0, 0),
            retimed_source_timerange: SourceTimerange::new(0, 0),
        },
    }
}

fn full_canvas() -> LayerTransform {
    LayerTransform {
        fit_mode: SegmentFitMode::Fit,
        crop: SegmentCrop { left_millis: 0, right_millis: 0, top_millis: 0, bottom_millis: 0 },
        scale: SegmentScale { x_millis: 1_000, y_millis: 1_000 },
        position_x: 0,
        position_y: 0,
        anchor: SegmentAnchor { x_millis: 500, y_millis: 500 },
        rotation_degrees: 0,
        opacity_millis: 1_000,
    }
}

fn video_layer(track: &str, segment: &str, material: &str, kind: MaterialKind, source_start: u64, stack_index: u32) -> RenderVideoLayer {
    RenderVideoLayer {
        track_id: track.to_owned(),
        segment_id: segment.to_owned(),
        material_id: material.to_owned(),
        material_kind: kind,
        stack_index,
        source_timerange: SourceTimerange::new(source_start, 1_000_000),
        target_timerange: TargetTimerange::new(0, 1_000_000),
        retime: unity(),
        transform: full_canvas(),
        background: BackgroundFilling::NoFilling,
        visible: true,
        filters: Vec::new(),
        has_mask: false,
        has_visual_mask: false,
        blend_is_normal: true,
        visual_blend_is_normal: true,
        transition: None,
        has_keyframes: false,
    }
}

fn audio_mix(track: &str, segment: &str, material: &str, source_start: u64) -> RenderAudioMix {
    RenderAudioMix {
        track_id: track.to_owned(),
        segment_id: segment.to_owned(),
        material_id: material.to_owned(),
        source_timerange: SourceTimerange::new(source_start, 1_000_000),
        target_timerange: TargetTimerange::new(0, 1_000_000),
        gain_millis: 1_000,
        pan_balance_millis: 0,
        fade_in_duration: 0,
        fade_out_duration: 0,
        retime: unity(),
        volume_keyframes: Vec::new(),
        effect_slots: Vec::new(),
        filters: Vec::new(),
        audible: true,
    }
}

fn material(id: &str, kind: MaterialKind, uri: &str, has_video: bool, has_audio: bool) -> RenderMaterial {
    RenderMaterial {
        material_id: id.to_owned(),
        kind,
        uri: uri.to_owned(),
        has_video,
        has_audio,
        width: if has_video { Some(1920) } else { None },
        height: if has_video { Some(1080) } else { None },
    }
}

fn plan(profile: RenderOutputProfile, window: TargetTimerange, with_text: bool) -> RenderGraphPlan {
    let text_overlays = if with_text { vec![render_overlay(styled_text("标题", None))] } else { Vec::new() };
    RenderGraphPlan {
        draft_id: "draft-compiler".to_owned(),
        output_profile: profile,
        canvas_background: CanvasBackground::Black,
        materials: vec![
            material("audio-material", MaterialKind::Audio, "file:///media/audio.wav", false, true),
            material("overlay-material", MaterialKind::Image, "file:///media/overlay.png", true, false),
            material("text-material", MaterialKind::Text, "text://title", false, false),
            material("video-material", MaterialKind::Video, "file:///media/video.mp4", true, true),
        ],
        video_layers: vec![
            video_layer("video-track", "video-a", "video-material", MaterialKind::Video, 100_000, 0),
            video_layer("overlay-track", "overlay-a", "overlay-material", MaterialKind::Image, 0, 1),
        ],
        text: RenderTextPlan { canvas_width: 1920, canvas_height: 1080, output_timerange: window, text_overlays },
        audio_mixes: vec![
            audio_mix("audio-track", "audio-a", "audio-material", 0),
            audio_mix("video-track", "video-a", "video-material", 100_000),
        ],
        visual_diagnostics: Vec::new(),
    }
}

fn extras(n: usize) -> Vec<LayerExtras> {
    (0..n)
        .map(|_| LayerExtras {
            effect_filters: Vec::new(),
            mask_filters: Vec::new(),
            rotated_dimensions: LayerDimensions { width: 1, height: 1 },
            rotation_angle: String::new(),
        })
        .collect()
}

fn preview_frame() -> RenderOutputProfile {
    RenderOutputProfile::PreviewFrame {
        profile_id: "preview-frame-png".to_owned(),
        format: PreviewFrameFormat::Png,
        dimensions: OutputDimensionsSnapshot { width: 960, height: 540 },
        frame_rate: RationalFrameRate::new(30, 1),
        target_timerange: TargetTimerange::new(600_000, 33_333),
    }
}

fn preview_segment() -> RenderOutputProfile {
    RenderOutputProfile::PreviewSegment {
        profile_id: "preview-segment-mp4".to_owned(),
        dimensions: OutputDimensionsSnapshot { width: 960, height: 540 },
        frame_rate: RationalFrameRate::new(30, 1),
        target_timerange: TargetTimerange::new(600_000, 100_000),
        container: RenderContainer::Mp4,
        video_codec: RenderVideoCodec::H264,
        audio_codec: RenderAudioCodec::Aac,
    }
}

fn export() -> RenderOutputProfile {
    RenderOutputProfile::ExportMp4 {
        profile_id: "export-mp4-h264-balanced".to_owned(),
        dimensions: OutputDimensionsSnapshot { width: 1920, height: 1080 },
        frame_rate: RationalFrameRate::new(30, 1),
        target_timerange: TargetTimerange::new(600_000, 100_000),
        preset: ExportMp4Preset {
            container: RenderContainer::Mp4,
            video_codec: RenderVideoCodec::H264,
            audio_codec: RenderAudioCodec::Aac,
            crf: 23,
            audio_bitrate_kbps: 192,
        },
    }
}

fn compile(plan: &RenderGraphPlan, context: &CompileContext) -> Result<editor_core::compiler::compile::FfmpegJob, editor_core::compiler::job::FfmpegCompileError> {
    compile_ffmpeg_job(plan, context, &registry(), &extras(plan.video_layers.len()), &Vec::new(), &vec![Vec::new(); plan.audio_mixes.len()])
}

#[test]
fn ffmpeg_job_preview_frame_snapshot_contains_structured_args_and_filter_sidecars() {
    let job = compile(&plan(preview_frame(), TargetTimerange::new(600_000, 33_333), true), &context("/derived/preview.png"))
        .expect("preview frame job should compile");

    assert_eq!(job.output_kind, FfmpegOutputKind::PreviewFramePng);
    assert_eq!(job.output_path, "/derived/preview.png");
    assert_eq!(
        job.args,
        vec![
            "-y",
            "-i",
            "/media/audio.wav",
            "-i",
            "/media/overlay.png",
            "-i",
            "/media/video.mp4",
            "-filter_complex_script",
            "/derived/draft-compiler-preview-frame-png-filter.ffscript",
            "-map",
            "[vout]",
            "-frames:v",
            "1",
            "-f",
            "image2",
            "-c:v",
            "png",
            "/derived/preview.png",
        ]
    );
    assert_eq!(job.inputs.len(), 3);
    assert_eq!(job.sidecars[0].path, "/derived/draft-compiler-preview-frame-png-filter.ffscript");
    assert_eq!(job.sidecars[0].kind, FfmpegSidecarKind::FilterScript);
    assert_eq!(job.sidecars[0].sidecar_id, "draft-compiler-preview-frame-png-filter");
    assert_eq!(job.sidecars[0].contents, job.filter_script);
    assert!(job.sidecars[0].contents.contains("subtitles=filename='/derived/draft-compiler-preview-frame-png-text.ass'"));
    assert_eq!(job.sidecars.len(), 2);
    assert_eq!(job.sidecars[1].kind, FfmpegSidecarKind::AssSubtitle);
    assert_eq!(job.validation.expect_audio_stream, false);
    assert!(!job.filter_script.contains("[aout]"));
}

#[test]
fn ffmpeg_job_preview_segment_and_export_share_graph_compiler_path() {
    let preview = compile(&plan(preview_segment(), TargetTimerange::new(600_000, 100_000), true), &context("/derived/output.mp4"))
        .expect("preview segment job should compile");
    let export = compile(&plan(export(), TargetTimerange::new(600_000, 100_000), true), &context("/derived/output.mp4"))
        .expect("export job should compile");

    assert_eq!(preview.output_kind, FfmpegOutputKind::PreviewSegmentMp4);
    assert_eq!(export.output_kind, FfmpegOutputKind::ExportMp4);
    assert!(preview.args.contains(&"libx264".to_owned()));
    assert!(preview.args.contains(&"aac".to_owned()));
    assert!(export.args.contains(&"libx264".to_owned()));
    assert!(export.args.contains(&"192k".to_owned()));
    for expected in ["overlay=x=0:y=0", "subtitles=", "amix=inputs=2"] {
        assert!(preview.filter_script.contains(expected));
        assert!(export.filter_script.contains(expected));
    }
    assert_eq!(preview.validation.expect_audio_stream, true);
    assert_eq!(export.validation.expect_audio_stream, true);
}

#[test]
fn ffmpeg_job_classifies_missing_encoder_and_output_path_preconditions() {
    let export_plan = plan(export(), TargetTimerange::new(600_000, 100_000), true);
    let no_h264 = CompileContext::new("/derived/output.mp4", "/derived").with_capabilities(
        CompilerCapabilities { text: env_font_capability(), ..CompilerCapabilities::default() }.with_h264_encoder(false),
    );
    let encoder_error = compile(&export_plan, &no_h264).expect_err("missing h264 encoder should be classified");
    assert_eq!(encoder_error.kind, FfmpegCompileErrorKind::UnsupportedEncoder);

    let missing_output = compile(&export_plan, &context("/derived/output.mp4").with_output_path(""))
        .expect_err("empty output path should be classified");
    assert_eq!(missing_output.kind, FfmpegCompileErrorKind::MissingOutputPath);
    assert_eq!(missing_output.message, "FFmpeg job output path must not be empty");

    let blank_output = compile(&export_plan, &no_h264.with_output_path("   ")).expect_err("a blank path is checked first");
    assert_eq!(blank_output.kind, FfmpegCompileErrorKind::MissingOutputPath);
}

#[test]
fn export_filter_script_lays_layers_over_the_canvas_and_mixes_the_audio() {
    let job = compile(&plan(export(), TargetTimerange::new(600_000, 100_000), false), &context("/derived/output.mp4"))
        .expect("export job should compile");
    assert_eq!(
        job.filter_script,
        [
            "[2:v]trim=start=0.700000:duration=0.100000,setpts=PTS-STARTPTS[vstage0a]",
            "[vstage0a]null[v0]",
            "[1:v]loop=loop=-1:size=1:start=0,fps=30/1,trim=duration=0.100000,setpts=PTS-STARTPTS[vstage1a]",
            "[vstage1a]null[v1]",
            "color=c=black:s=1920x1080:r=30/1:d=0.100000[vbase0]",
            "[vbase0][v0]overlay=x=0:y=0:enable='between(t,0.000000,0.100000)'[vbase1]",
            "[vbase1][v1]overlay=x=0:y=0:enable='between(t,0.000000,0.100000)'[vbase2]",
            "[vbase2]format=yuv420p[vout]",
            "[0:a]atrim=start=0.600000:duration=0.100000,asetpts=PTS-STARTPTS,volume=1.000[a0]",
            "[2:a]atrim=start=0.700000:duration=0.100000,asetpts=PTS-STARTPTS,volume=1.000[a1]",
            "[a0][a1]amix=inputs=2:duration=longest:normalize=0[aout]",
        ]
        .join(";\n")
    );
    assert_eq!(job.job_id, "draft-compiler-export-mp4-h264-balanced");
    assert_eq!(job.sidecars.len(), 1);
    assert!(job.filter_script_diagnostics.is_empty());
    assert!(job.visual_diagnostics.is_empty());
}

#[test]
fn filter_script_without_layers_is_the_canvas_and_text_needs_a_side_file() {
    let mut empty = plan(export(), TargetTimerange::new(600_000, 100_000), false);
    empty.video_layers.clear();
    empty.audio_mixes.clear();
    let inputs = collect_inputs(&empty.materials).unwrap();
    let script = generate_filter_script(&empty, &context("/derived/output.mp4"), &inputs, &Vec::new(), "job", &Vec::new(), &Vec::new(), &Vec::new())
        .expect("a plan without layers still has a canvas");
    assert_eq!(script.path, "/derived/job-filter.ffscript");
    assert_eq!(script.contents, "color=c=black:s=1920x1080:r=30/1:d=0.100000[vbase0];\n[vbase0]format=yuv420p[vout]");
    assert!(!script.has_audio_output);

    let with_text = plan(export(), TargetTimerange::new(600_000, 100_000), true);
    let inputs = collect_inputs(&with_text.materials).unwrap();
    let error = generate_filter_script(&with_text, &context("/derived/output.mp4"), &inputs, &Vec::new(), "job", &extras(2), &Vec::new(), &vec![Vec::new(), Vec::new()])
        .expect_err("text without a side file is an error");
    assert_eq!(error.kind, FfmpegCompileErrorKind::MissingTextFont);

    let unread = plan(export(), TargetTimerange::new(600_000, 100_000), false);
    let error = generate_filter_script(&unread, &context("/derived/output.mp4"), &Vec::new(), &Vec::new(), "job", &extras(2), &Vec::new(), &vec![Vec::new(), Vec::new()])
        .expect_err("a layer no input reads is an error");
    assert_eq!(error.kind, FfmpegCompileErrorKind::MissingInputMaterial);
    assert_eq!(error.material_id.as_deref(), Some("video-material"));
}

#[test]
fn layers_that_tile_the_output_are_concatenated_in_time() {
    let mut tiled = plan(export(), TargetTimerange::new(600_000, 100_000), false);
    let mut first = video_layer("video-track", "video-a", "video-material", MaterialKind::Video, 100_000, 0);
    first.source_timerange = SourceTimerange::new(100_000, 50_000);
    first.target_timerange = TargetTimerange::new(600_000, 50_000);
    let mut second = video_layer("video-track", "video-b", "video-material", MaterialKind::Video, 300_000, 0);
    second.source_timerange = SourceTimerange::new(300_000, 50_000);
    second.target_timerange = TargetTimerange::new(650_000, 50_000);
    tiled.video_layers = vec![first, second];
    tiled.audio_mixes.clear();
    let job = compile(&tiled, &context("/derived/output.mp4")).expect("tiled layers compile");
    assert_eq!(
        job.filter_script,
        [
            "[2:v]trim=start=0.100000:duration=0.050000,setpts=PTS-STARTPTS[vstage0a]",
            "[vstage0a]null[v0]",
            "[2:v]trim=start=0.300000:duration=0.050000,setpts=PTS-STARTPTS[vstage1a]",
            "[vstage1a]null[v1]",
            "[v0][v1]concat=n=2:v=1:a=0[vconcatraw0]",
            "[vconcatraw0]scale=1920:1080[vconcat0]",
            "[vconcat0]format=yuv420p[vout]",
        ]
        .join(";\n")
    );
    assert!(!job.filter_script.contains("overlay="));
    assert!(!job.filter_script.contains("[aout]"));
}

#[test]
fn a_transition_splits_both_layers_and_draws_the_handed_in_filter() {
    let mut with_transition = plan(export(), TargetTimerange::new(600_000, 100_000), false);
    with_transition.audio_mixes.clear();
    with_transition.video_layers[0].transition = Some(RenderTransitionIntent {
        from_segment_id: "video-a".to_owned(),
        to_segment_id: "overlay-a".to_owned(),
        support: RenderIntentSupport::Supported,
        reason: String::new(),
        window: TargetTimerange::new(600_000, 50_000),
    });
    let xfade = "[v0transition0][v1transition0]xfade=transition=fade:duration=0.050000:offset=0.000000[vfaded]".to_owned();
    let inputs = collect_inputs(&with_transition.materials).unwrap();
    let script = generate_filter_script(
        &with_transition,
        &context("/derived/output.mp4"),
        &inputs,
        &Vec::new(),
        "job",
        &extras(2),
        &vec![Some(xfade.clone())],
        &Vec::new(),
    )
    .expect("a transition between two layers compiles");
    let lines: Vec<&str> = script.contents.split(";\n").collect();
    assert!(lines.contains(&"[v0]split=2[v0main][v0transition0]"), "{}", script.contents);
    assert!(lines.contains(&"[v1]split=2[v1main][v1transition0]"), "{}", script.contents);
    assert!(lines.contains(&xfade.as_str()));
    assert!(script.contents.contains("[vbase0][v0main]overlay=x=0:y=0"));
    assert!(script.contents.contains("[vbase1][v1main]overlay=x=0:y=0"));
    assert!(script.contents.contains("]overlay=x=0:y=0:enable='between(t,0.000000,0.050000)'[vbase3]"));
    assert_eq!(lines.last(), Some(&"[vbase3]format=yuv420p[vout]"));
}

fn canvas_plan(width: u32, height: u32, frame_rate: RationalFrameRate, background: CanvasBackground) -> RenderGraphPlan {
    let mut canvas = plan(
        RenderOutputProfile::ExportMp4 {
            profile_id: "export-mp4-h264-balanced".to_owned(),
            dimensions: OutputDimensionsSnapshot { width, height },
            frame_rate,
            target_timerange: TargetTimerange::new(0, 100_000),
            preset: ExportMp4Preset {
                container: RenderContainer::Mp4,
                video_codec: RenderVideoCodec::H264,
                audio_codec: RenderAudioCodec::Aac,
                crf: 23,
                audio_bitrate_kbps: 192,
            },
        },
        TargetTimerange::new(0, 100_000),
        false,
    );
    canvas.draft_id = "draft-compiler-canvas".to_owned();
    canvas.canvas_background = background;
    canvas.materials.clear();
    canvas.video_layers.clear();
    canvas.audio_mixes.clear();
    canvas
}

#[test]
fn export_encode_settings_and_validation_use_vertical_draft_canvas_profile() {
    let plan = canvas_plan(1_080, 1_920, RationalFrameRate::new(25, 1), CanvasBackground::Black);
    let job = compile(&plan, &context("/derived/canvas-output.mp4")).expect("vertical canvas export job should compile");

    assert_eq!(job.encode_settings.dimensions.width, 1_080);
    assert_eq!(job.encode_settings.dimensions.height, 1_920);
    assert_eq!(job.encode_settings.frame_rate, RationalFrameRate::new(25, 1));
    assert_eq!(job.validation.expected_width, 1_080);
    assert_eq!(job.validation.expected_height, 1_920);
    assert_eq!(job.validation.expected_frame_rate, RationalFrameRate::new(25, 1));
}

#[test]
fn export_encode_settings_and_validation_use_square_custom_draft_canvas_profile() {
    let plan = canvas_plan(
        1_024,
        1_024,
        RationalFrameRate::new(48, 1),
        CanvasBackground::SolidColor { color: "#222222".to_owned() },
    );
    let job = compile(&plan, &context("/derived/canvas-output.mp4")).expect("square canvas export job should compile");

    assert_eq!(job.encode_settings.dimensions.width, 1_024);
    assert_eq!(job.encode_settings.dimensions.height, 1_024);
    assert_eq!(job.encode_settings.frame_rate, RationalFrameRate::new(48, 1));
    assert_eq!(job.validation.expected_width, 1_024);
    assert_eq!(job.validation.expected_height, 1_024);
    assert_eq!(job.validation.expected_frame_rate, RationalFrameRate::new(48, 1));
    assert!(job.filter_script.starts_with("color=c=0x222222:s=1024x1024:r=48/1:d=0.100000[vbase0]"));
}

#[test]
fn ass_text_sidecar_uses_engine_resolved_auto_wrapping() {
    let mut wrapped_plan = plan(export(), TargetTimerange::new(600_000, 100_000), false);
    let mut text = styled_text("abcdefghij", None);
    text.text_box.width_millis = 100;
    wrapped_plan.text.text_overlays = vec![render_overlay(text)];
    let job = compile(&wrapped_plan, &context("/derived/output.mp4")).expect("export with wrapped text should compile");
    let ass = job
        .sidecars
        .iter()
        .find(|sidecar| sidecar.kind == FfmpegSidecarKind::AssSubtitle)
        .expect("text overlay should generate an ASS sidecar");

    assert!(ass.contents.contains("Dialogue: 2,0:00:00.00,0:00:00.10,Style0_text-a,text-a,192,192,108,,abcde\\Nfghij"), "{}", ass.contents);
}
