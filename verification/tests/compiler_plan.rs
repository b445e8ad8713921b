use editor_core::compiler::ass::{
    ass_alignment, ass_color, ass_contents, ass_time, clipped_event_timerange, escape_ass_text,
    generate_ass_sidecars, letter_spacing_pixels, reject_unsupported_text_resources, resolve_text_font,
    sorted_distinct, BundledFontEntry, RenderTextOverlay, RenderTextPlan,
};
use editor_core::compiler::effects::{
    apply_ratio_floor, compile_audio_retime_filters, compile_video_retime_filters,
    retimed_source_timerange_for_output, scale_duration, RenderRetimeAudio, RenderRetimeIntent,
    RenderRetimeSourceMapping,
};
use editor_core::compiler::filters::{
    append_video_output_filters,
    can_concat_audio_mixes, clipped_audio_source_timerange, is_unity_retime, append_audio_output_filters, audio_mix_labels, audio_track_can_concat, AudioLabel, ass_font_dir, non_empty_dir, subtitles_filter, active_target_range, canvas_background_color_arg, clipped_source_timerange, compile_audio_mix_filters,
    cropped_dimensions, crop_is_active, delay_millis, escape_filter_path, fill_dimensions, fit_dimensions,
    frame_rate_arg, hex_color_to_ffmpeg_arg, layer_placement, normalized_millis_to_canvas_pixel, pan_filter,
    ranges_cover_output_contiguously, reject_unsupported_audio_automation, render_material_dimensions,
    scaled_dimensions, segment_background_color_arg, target_delay_from_output, volume_arg,
    AudioTimelineAlignment, LayerDimensions, LayerPlacement, RenderAudioEffectSlot, RenderAudioMix,
    SegmentAnchor, SegmentCrop, SegmentFitMode, SegmentScale,
};
use editor_core::compiler::streams::compile_audio_streams;
use editor_core::compiler::job::{
    input_index_by_material, missing_input, output_duration, FfmpegInput,
    build_args, collect_inputs, encode_settings, ffmpeg_path_from_uri, format_seconds, join_path, output_kind,
    output_timerange, output_validation, profile_id, sanitize_id, stable_job_id, validate_profile_capabilities,
    BundledFontAsset, CompileContext, FfmpegSidecar, CompilerCapabilities, ExportMp4Preset, FfmpegCompileErrorKind,
    FfmpegOutputKind, FfmpegSidecarKind, OutputDimensionsSnapshot, PreviewFrameFormat, RenderAudioCodec,
    RenderContainer, RenderIntentSupport, RenderMaterial, RenderOutputProfile, RenderVideoCodec,
    TextRenderCapability,
};
use editor_core::engine::frame_state::resolve_frame_state;
use editor_core::engine::keyframes::{Keyframe, KeyframeEasing, KeyframeInterpolation, KeyframeProperty, KeyframeValue};
use editor_core::engine::model::{
    AudioRetimePolicy, BackgroundFilling, CanvasBackground, CanvasConfig, Draft, Material, MaterialKind,
    MaterialStatus, RationalFrameRate, RetimeMode, Segment, SegmentRetiming, SegmentVisual, SourceTimerange,
    SpeedCurvePoint, SpeedRatio, TargetTimerange, TextAlignment, TextBackground, TextBox, TextFont,
    TextLayoutRegion, TextResourceRef, TextSegment, TextSegmentSource, TextShadow, TextStroke, TextStyle,
    TextWrapping, Track, TrackKind, VisualTransform,
};
use editor_core::engine::normalize::{normalize_draft, EngineProfile};
use editor_core::engine::text_layout::{BundledTextFont, ResolvedTextOverlay};

// --- fixtures ------------------------------------------------------------

fn bundled_text_font() -> BundledTextFont {
    BundledTextFont {
        family: "PingFang SC".to_owned(),
        font_ref: "bundled:text-default".to_owned(),
        relative_path: "fonts/Bundled-Sans.ttf".to_owned(),
    }
}

fn bundled_asset() -> BundledFontAsset {
    BundledFontAsset {
        font_ref: "bundled:text-default".to_owned(),
        family: "Bundled Sans".to_owned(),
        relative_path: "fonts/Bundled-Sans.ttf".to_owned(),
        serif_relative_path: "fonts/Bundled-Serif.ttf".to_owned(),
        license_spdx: "OFL-1.1".to_owned(),
    }
}

fn registry() -> Vec<BundledFontEntry> {
    vec![BundledFontEntry { font_ref: "bundled:text-default".to_owned(), family: "Bundled Sans".to_owned() }]
}

fn identity_retiming() -> SegmentRetiming {
    SegmentRetiming { mode: RetimeMode::Constant { speed: SpeedRatio::one() }, audio_policy: AudioRetimePolicy::FollowVideoSpeed }
}

fn default_visual() -> SegmentVisual {
    SegmentVisual {
        visible: true,
        transform: VisualTransform {
            position_x: 0,
            position_y: 0,
            scale_x_millis: 1000,
            scale_y_millis: 1000,
            rotation_degrees: 0,
            opacity_millis: 1000,
            crop: SegmentCrop { left_millis: 0, right_millis: 0, top_millis: 0, bottom_millis: 0 },
        },
        fit_mode: SegmentFitMode::Fit,
        background_filling: BackgroundFilling::NoFilling,
        blend_reference: None,
        mask_reference: None,
    }
}

fn styled_text(content: &str, font_ref: Option<&str>) -> TextSegment {
    TextSegment {
        content: content.to_owned(),
        source: TextSegmentSource::Subtitle,
        style: TextStyle {
            font: TextFont { family: String::new(), font_ref: font_ref.map(|r| r.to_owned()) },
            font_size: 48,
            color: "#33ccff".to_owned(),
            alignment: TextAlignment::Center,
            line_height_millis: 1500,
            letter_spacing_millis: 125,
            stroke: Some(TextStroke { color: "#101010".to_owned(), width: 2 }),
            shadow: Some(TextShadow { color: "#000000".to_owned(), offset_x: 3, offset_y: -4, blur: 1 }),
            background: Some(TextBackground { color: "#202020".to_owned() }),
        },
        text_box: TextBox { width_millis: 600, height_millis: 260 },
        layout_region: TextLayoutRegion { x_millis: 100, y_millis: 700, width_millis: 800, height_millis: 200 },
        wrapping: TextWrapping::Auto,
        bubble: None,
        effect: None,
    }
}

fn text_draft(text: TextSegment) -> Draft {
    let empty_track = |id: &str| Track {
        track_id: id.to_owned(),
        kind: TrackKind::Video,
        name: id.to_owned(),
        muted: false,
        visible: true,
        segments: Vec::new(),
    };
    let text_segment = Segment {
        segment_id: "text-a".to_owned(),
        material_id: "text-material".to_owned(),
        source_timerange: SourceTimerange::new(0, 1_000_000),
        target_timerange: TargetTimerange::new(0, 1_000_000),
        retiming: identity_retiming(),
        keyframes: Vec::new(),
        text: Some(text),
        volume_level_millis: 1000,
        visual: default_visual(),
    };
    Draft {
        draft_id: "draft-compiler".to_owned(),
        name: String::new(),
        canvas_config: CanvasConfig {
            frame_rate: RationalFrameRate::new(30, 1),
            width: 1920,
            height: 1080,
            background: CanvasBackground::Black,
        },
        tracks: vec![
            empty_track("video-track"),
            empty_track("overlay-track"),
            Track {
                track_id: "text-track".to_owned(),
                kind: TrackKind::Text,
                name: "文字".to_owned(),
                muted: false,
                visible: true,
                segments: vec![text_segment],
            },
        ],
        materials: vec![Material {
            material_id: "text-material".to_owned(),
            kind: MaterialKind::Text,
            uri: "text://title".to_owned(),
            display_name: "text-material".to_owned(),
            status: MaterialStatus::Available,
            duration: Some(1_000_000),
            width: None,
            height: None,
            has_video: false,
            has_audio: false,
        }],
    }
}

fn resolved_overlay(text: TextSegment) -> ResolvedTextOverlay {
    let ok: Result<(), String> = Ok(());
    let normalized = normalize_draft(&text_draft(text), &EngineProfile::mvp_default(&bundled_text_font()), &ok).unwrap();
    let mut frame = resolve_frame_state(&normalized, 0).unwrap();
    frame.text_overlays.remove(0)
}

fn render_overlay(text: TextSegment) -> RenderTextOverlay {
    RenderTextOverlay {
        overlay: resolved_overlay(text),
        material_id: "text-material".to_owned(),
        filters: Vec::new(),
        transition: None,
    }
}

fn env_font_capability() -> TextRenderCapability {
    TextRenderCapability {
        env_text_font_path: Some("/fonts/PingFang.ttc".to_owned()),
        available_font_paths: vec!["/fonts/PingFang.ttc".to_owned()],
        ..TextRenderCapability::default()
    }
}

fn export_profile() -> RenderOutputProfile {
    RenderOutputProfile::ExportMp4 {
        profile_id: "export-mp4-h264-balanced".to_owned(),
        dimensions: OutputDimensionsSnapshot { width: 1920, height: 1080 },
        frame_rate: RationalFrameRate::new(30, 1),
        target_timerange: TargetTimerange::new(0, 100_000),
        preset: ExportMp4Preset {
            container: RenderContainer::Mp4,
            video_codec: RenderVideoCodec::H264,
            audio_codec: RenderAudioCodec::Aac,
            crf: 23,
            audio_bitrate_kbps: 192,
        },
    }
}

fn preview_frame_profile() -> RenderOutputProfile {
    RenderOutputProfile::PreviewFrame {
        profile_id: "preview-frame-png".to_owned(),
        format: PreviewFrameFormat::Png,
        dimensions: OutputDimensionsSnapshot { width: 1920, height: 1080 },
        frame_rate: RationalFrameRate::new(30, 1),
        target_timerange: TargetTimerange::new(600_000, 33_333),
    }
}

fn retime_intent(mode: RetimeMode, support: RenderIntentSupport, follow_speed: bool) -> RenderRetimeIntent {
    RenderRetimeIntent {
        retiming: SegmentRetiming { mode, audio_policy: AudioRetimePolicy::FollowVideoSpeed },
        support: RenderIntentSupport::Supported,
        audio: RenderRetimeAudio {
            support,
            reason: "audio retime reason".to_owned(),
            follow_speed,
            policy: AudioRetimePolicy::FollowVideoSpeed,
        },
        source_mapping: RenderRetimeSourceMapping {
            target_timerange: TargetTimerange::new(0, 0),
            retimed_source_timerange: SourceTimerange::new(0, 0),
        },
    }
}

fn speed(numerator: u32, denominator: u32) -> RetimeMode {
    RetimeMode::Constant { speed: SpeedRatio { numerator, denominator } }
}

// --- retiming in the filter graph ------------------------------------------

#[test]
fn phase19_production_effects_compiler_owns_filtergraph_output_from_render_intent() {
    let unity = retime_intent(speed(1, 1), RenderIntentSupport::Supported, true);
    assert_eq!(compile_video_retime_filters(&unity, 0), vec!["setpts=PTS-STARTPTS".to_owned()]);
    assert_eq!(compile_video_retime_filters(&unity, 250_000), vec!["setpts=PTS-STARTPTS+0.250000/TB".to_owned()]);

    let double = retime_intent(speed(2, 1), RenderIntentSupport::Supported, true);
    assert_eq!(compile_video_retime_filters(&double, 0), vec!["setpts=(PTS-STARTPTS)*1/2".to_owned()]);

    let curve = retime_intent(
        RetimeMode::SpeedCurve {
            points: vec![
                SpeedCurvePoint { target_time: 0, speed: SpeedRatio { numerator: 1, denominator: 1 } },
                SpeedCurvePoint { target_time: 100_000, speed: SpeedRatio { numerator: 3, denominator: 1 } },
            ],
        },
        RenderIntentSupport::Supported,
        true,
    );
    assert_eq!(
        compile_video_retime_filters(&curve, 0),
        vec!["setpts=if(lt(T,0.100000),0.000000+(T-0.000000)*1/1+0.000000,0.100000+(T-0.100000)*1/3+0.000000)/TB".to_owned()]
    );
}

#[test]
fn phase19_production_effects_compiler_classifies_unsupported_export_paths() {
    let track = "audio-track".to_owned();
    let segment = "audio-a".to_owned();
    let material = "audio-material".to_owned();
    let tempo = vec!["atempo=2.000000".to_owned()];

    let unsupported = retime_intent(speed(2, 1), RenderIntentSupport::Unsupported, true);
    let compiled = compile_audio_retime_filters(&track, &segment, &material, &unsupported, tempo.clone());
    assert!(compiled.filters.is_empty());
    assert_eq!(compiled.diagnostics.len(), 1);
    assert_eq!(compiled.diagnostics[0].support, RenderIntentSupport::Unsupported);
    assert_eq!(compiled.diagnostics[0].property, "retime.audio");
    assert_eq!(compiled.diagnostics[0].reason, "audio retime reason");

    let curve = retime_intent(
        RetimeMode::SpeedCurve {
            points: vec![SpeedCurvePoint { target_time: 0, speed: SpeedRatio { numerator: 2, denominator: 1 } }],
        },
        RenderIntentSupport::Supported,
        true,
    );
    let deferred = compile_audio_retime_filters(&track, &segment, &material, &curve, tempo.clone());
    assert!(deferred.filters.is_empty());
    assert_eq!(deferred.diagnostics[0].support, RenderIntentSupport::Degraded);
    assert_eq!(
        deferred.diagnostics[0].reason,
        "speed-curve audio retime is typed in the render graph but dynamic atempo export is deferred"
    );

    let constant = retime_intent(speed(2, 1), RenderIntentSupport::Supported, true);
    let tempo_chain = compile_audio_retime_filters(&track, &segment, &material, &constant, tempo.clone());
    assert_eq!(tempo_chain.filters, tempo);
    assert!(tempo_chain.diagnostics.is_empty());

    let not_following = retime_intent(speed(2, 1), RenderIntentSupport::Supported, false);
    let untouched = compile_audio_retime_filters(&track, &segment, &material, &not_following, tempo.clone());
    assert!(untouched.filters.is_empty() && untouched.diagnostics.is_empty());

    let unity = retime_intent(speed(3, 3), RenderIntentSupport::Supported, true);
    assert!(compile_audio_retime_filters(&track, &segment, &material, &unity, tempo).filters.is_empty());
}

#[test]
fn retimed_source_range_for_an_output_window_is_proportional() {
    let mapping = RenderRetimeSourceMapping {
        target_timerange: TargetTimerange::new(1_000_000, 1_000_000),
        retimed_source_timerange: SourceTimerange::new(0, 2_000_000),
    };
    assert_eq!(
        retimed_source_timerange_for_output(&mapping, &TargetTimerange::new(0, 5_000_000)),
        Some(SourceTimerange::new(0, 2_000_000))
    );
    assert_eq!(
        retimed_source_timerange_for_output(&mapping, &TargetTimerange::new(1_500_000, 250_000)),
        Some(SourceTimerange::new(1_000_000, 500_000))
    );
    assert_eq!(retimed_source_timerange_for_output(&mapping, &TargetTimerange::new(3_000_000, 10)), None);
}

#[test]
fn duration_scaling_rounds_down_and_treats_zero_denominator_as_one() {
    assert_eq!(scale_duration(1_000, 1, 3), 333);
    assert_eq!(scale_duration(7, 5, 0), 35);
    assert_eq!(scale_duration(u64::MAX, 2, 1), u64::MAX);
    assert_eq!(apply_ratio_floor(100_000, &SpeedRatio { numerator: 3, denominator: 2 }), 150_000);
}

// --- job --------------------------------------------------------------------

#[test]
fn seconds_ids_and_paths_are_formatted_deterministically() {
    assert_eq!(format_seconds(0), "0.000000");
    assert_eq!(format_seconds(1_500_000), "1.500000");
    assert_eq!(format_seconds(33_333), "0.033333");
    assert_eq!(sanitize_id("draft 1/ü_x-y"), "draft-1--_x-y");
    assert_eq!(stable_job_id("draft-compiler", "export-mp4-h264-balanced"), "draft-compiler-export-mp4-h264-balanced");
    assert_eq!(ffmpeg_path_from_uri("file:///media/video.mp4"), "/media/video.mp4");
    assert_eq!(ffmpeg_path_from_uri("/media/audio.wav"), "/media/audio.wav");
    assert_eq!(join_path("/derived", "a.ass"), "/derived/a.ass");
    assert_eq!(join_path("/derived/", "a.ass"), "/derived/a.ass");
    assert_eq!(join_path("/derived", "/abs/a.ass"), "/abs/a.ass");
    let context = CompileContext::new("/out/export.mp4", "/derived");
    assert_eq!(context.artifact_path("job-filter.ffscript"), "/derived/job-filter.ffscript");
    let moved = context.with_output_path("/out/other.mp4");
    assert_eq!(moved.output_path, "/out/other.mp4");
    assert_eq!(moved.artifact_dir, "/derived");
}

#[test]
fn profile_capabilities_classify_missing_encoders() {
    let missing_h264 = CompilerCapabilities::default().with_h264_encoder(false);
    let error = validate_profile_capabilities(&export_profile(), &missing_h264).expect_err("missing h264 encoder should be classified");
    assert_eq!(error.kind, FfmpegCompileErrorKind::UnsupportedEncoder);
    assert_eq!(error.message, "H.264 encoder is not available for MP4 output");
    assert!(validate_profile_capabilities(&preview_frame_profile(), &missing_h264).is_ok());
    let missing_aac = CompilerCapabilities { supports_aac_encoder: false, ..CompilerCapabilities::default() };
    assert_eq!(
        validate_profile_capabilities(&export_profile(), &missing_aac).unwrap_err().message,
        "AAC encoder is not available for MP4 output"
    );
    assert!(validate_profile_capabilities(&export_profile(), &CompilerCapabilities::default()).is_ok());
}

#[test]
fn profiles_give_kind_id_range_settings_and_validation() {
    let export = export_profile();
    assert_eq!(output_kind(&export), FfmpegOutputKind::ExportMp4);
    assert_eq!(profile_id(&export), "export-mp4-h264-balanced");
    assert_eq!(output_timerange(&export), TargetTimerange::new(0, 100_000));
    let settings = encode_settings(&export);
    assert_eq!(settings.container.as_deref(), Some("mp4"));
    assert_eq!(settings.video_codec.as_deref(), Some("libx264"));
    assert_eq!(settings.audio_codec.as_deref(), Some("aac"));
    assert_eq!(settings.crf, Some(23));
    assert_eq!(settings.audio_bitrate_kbps, Some(192));
    assert_eq!(settings.pixel_format.as_deref(), Some("yuv420p"));
    let validation = output_validation(&export, true);
    assert_eq!(validation.expected_duration, 100_000);
    assert_eq!(validation.expected_width, 1920);
    assert!(validation.expect_audio_stream);

    let frame = preview_frame_profile();
    assert_eq!(output_kind(&frame), FfmpegOutputKind::PreviewFramePng);
    let frame_settings = encode_settings(&frame);
    assert!(frame_settings.container.is_none() && frame_settings.crf.is_none());
    assert!(!output_validation(&frame, true).expect_audio_stream);
}

#[test]
fn inputs_and_args_of_preview_frame_and_export_profiles() {
    let materials = vec![
        RenderMaterial {
            material_id: "video-material".to_owned(),
            kind: MaterialKind::Video,
            uri: "file:///media/video.mp4".to_owned(),
            has_video: true,
            has_audio: true,
            width: Some(1920),
            height: Some(1080),
        },
        RenderMaterial {
            material_id: "text-material".to_owned(),
            kind: MaterialKind::Text,
            uri: "text://title".to_owned(),
            has_video: false,
            has_audio: false,
            width: None,
            height: None,
        },
        RenderMaterial {
            material_id: "overlay-material".to_owned(),
            kind: MaterialKind::Image,
            uri: "/media/overlay.png".to_owned(),
            has_video: true,
            has_audio: false,
            width: Some(640),
            height: Some(360),
        },
    ];
    let inputs = collect_inputs(&materials).unwrap();
    assert_eq!(inputs.len(), 2);
    assert_eq!(inputs[0].input_index, 0);
    assert_eq!(inputs[0].ffmpeg_path, "/media/video.mp4");
    assert_eq!(inputs[1].input_index, 1);
    assert_eq!(inputs[1].material_id, "overlay-material");

    let frame = preview_frame_profile();
    let args = build_args(
        &inputs,
        "/derived/draft-compiler-preview-frame-png-filter.ffscript",
        "/derived/preview.png",
        output_kind(&frame),
        &encode_settings(&frame),
        33_333,
        false,
    );
    assert_eq!(
        args,
        vec![
            "-y", "-i", "/media/video.mp4", "-i", "/media/overlay.png", "-filter_complex_script",
            "/derived/draft-compiler-preview-frame-png-filter.ffscript", "-map", "[vout]", "-frames:v", "1", "-f",
            "image2", "-c:v", "png", "/derived/preview.png",
        ]
    );

    let export = export_profile();
    let export_args = build_args(&inputs, "/derived/f.ffscript", "/out/export.mp4", output_kind(&export), &encode_settings(&export), 100_000, true);
    assert_eq!(
        export_args,
        vec![
            "-y", "-i", "/media/video.mp4", "-i", "/media/overlay.png", "-filter_complex_script", "/derived/f.ffscript",
            "-map", "[vout]", "-map", "[aout]", "-c:v", "libx264", "-pix_fmt", "yuv420p", "-crf", "23", "-c:a", "aac",
            "-b:a", "192k", "-t", "0.100000", "-movflags", "+faststart", "/out/export.mp4",
        ]
    );
}

// --- ASS text sidecars --------------------------------------------------------

#[test]
fn ass_primitives_format_times_colours_alignment_and_escapes() {
    assert_eq!(ass_time(0), "0:00:00.00");
    assert_eq!(ass_time(100_000), "0:00:00.10");
    assert_eq!(ass_time(3_723_456_789), "1:02:03.45");
    assert_eq!(ass_color("#33ccff", "ffffff", 0), "&H00FFCC33");
    assert_eq!(ass_color("not a colour", "ffffff", 0x80), "&H80FFFFFF");
    assert_eq!(ass_color("202020", "000000", 0x80), "&H80202020");
    assert_eq!(ass_alignment(TextAlignment::Left), 1);
    assert_eq!(ass_alignment(TextAlignment::Center), 2);
    assert_eq!(ass_alignment(TextAlignment::Right), 3);
    assert_eq!(letter_spacing_pixels(48, 125), 6);
    assert_eq!(escape_ass_text("标题 {一}\n第二行"), "标题 \\{一\\}\\N第二行");
    assert_eq!(escape_ass_text("a\\b"), "a\\\\b");
    assert_eq!(clipped_event_timerange(&TargetTimerange::new(0, 100_000), &TargetTimerange::new(0, 1_000_000)), (0, 100_000));
    assert_eq!(
        clipped_event_timerange(&TargetTimerange::new(1_000, 100_000), &TargetTimerange::new(50_000, 20_000)),
        (49_000, 69_000)
    );
    assert_eq!(
        sorted_distinct(&vec!["fontRef x".to_owned(), "bubble".to_owned(), "effect".to_owned(), "bubble".to_owned()]),
        vec!["bubble".to_owned(), "effect".to_owned(), "fontRef x".to_owned()]
    );
}

#[test]
fn ass_text_sidecar_snapshot_contains_deterministic_style_timing_and_escaping() {
    let overlay = render_overlay(styled_text("标题 {一}\n第二行", None));
    let plan = RenderTextPlan {
        canvas_width: 1920,
        canvas_height: 1080,
        output_timerange: TargetTimerange::new(0, 100_000),
        text_overlays: vec![overlay],
    };
    let context = CompileContext::new("/out/export.mp4", "/derived").with_capabilities(CompilerCapabilities {
        text: env_font_capability(),
        ..CompilerCapabilities::default()
    });
    let sidecars = generate_ass_sidecars(&plan, &context, "draft-compiler-export-mp4-h264-balanced", &registry())
        .expect("export with text should compile");
    assert_eq!(sidecars.len(), 1);
    let ass = &sidecars[0];
    assert_eq!(ass.kind, FfmpegSidecarKind::AssSubtitle);
    assert_eq!(ass.path, "/derived/draft-compiler-export-mp4-h264-balanced-text.ass");
    assert_eq!(ass.sidecar_id, "draft-compiler-export-mp4-h264-balanced-text");
    assert_eq!(ass.segment_id, None);
    assert!(ass.contents.contains("PlayResX: 1920"));
    assert!(ass.contents.contains(
        "Style: Style0_text-a,PingFang SC,48,&H00FFCC33,&H00101010,&H80202020,0,0,0,0,100,100,6,0,3,2,4,2,192,192,108,1"
    ));
    assert!(ass.contents.contains("Dialogue: 2,0:00:00.00,0:00:00.10,Style0_text-a,text-a,192,192,108,,标题 \\{一\\}\\N第二行"));
    assert!(ass.contents.contains("; FontPath: /fonts/PingFang.ttc"));
    assert!(ass.contents.contains("; TextBox: 1152x280"));
    assert!(ass.contents.contains("; LayoutRegion: 192,756 1536x216"));
    assert!(ass.contents.contains("; LineHeightMillis: 1500"));
}

#[test]
fn ass_text_sidecar_batches_same_font_directory_overlays() {
    let first = render_overlay(styled_text("text-a", None));
    let mut second = first.clone();
    second.overlay.segment_id = "text-b".to_owned();
    second.overlay.content = "text-b".to_owned();
    second.overlay.stack_index = 3;
    let plan = RenderTextPlan {
        canvas_width: 1920,
        canvas_height: 1080,
        output_timerange: TargetTimerange::new(0, 100_000),
        text_overlays: vec![first, second],
    };
    let context = CompileContext::new("/out/export.mp4", "/derived").with_capabilities(CompilerCapabilities {
        text: env_font_capability(),
        ..CompilerCapabilities::default()
    });
    let sidecars = generate_ass_sidecars(&plan, &context, "draft-compiler-export-mp4-h264-balanced", &registry())
        .expect("export with multiple text overlays should compile");
    assert_eq!(sidecars.len(), 1);
    assert_eq!(sidecars[0].path, "/derived/draft-compiler-export-mp4-h264-balanced-text.ass");
    assert_eq!(sidecars[0].contents.matches("[Script Info]").count(), 1);
    assert!(sidecars[0].contents.contains("Dialogue: 2,0:00:00.00,0:00:00.10,Style0_text-a,text-a"));
    assert!(sidecars[0].contents.contains("Dialogue: 3,0:00:00.00,0:00:00.10,Style1_text-b,text-b"));
    assert!(sidecars[0].contents.contains("Style: Style1_text-b,PingFang SC,48"));
    assert_eq!(sidecars[0].contents.matches("; FontPath: /fonts/PingFang.ttc").count(), 2);
}

#[test]
fn ass_text_sidecar_resolves_bundled_font_ref_through_registry() {
    let overlay = render_overlay(styled_text("bundled", Some("bundled:text-default")));
    let capabilities = CompilerCapabilities::all_available_for_tests(&bundled_asset());
    let font = resolve_text_font(&overlay, &capabilities.text, &registry()).unwrap();
    assert_eq!(font.family, "Bundled Sans");
    assert_eq!(font.path, "fonts/Bundled-Sans.ttf");
    assert_eq!(font.candidate, "bundled:text-default");
    let contents = ass_contents(1920, 1080, &TargetTimerange::new(0, 100_000), &overlay, &font);
    assert!(contents.contains("Style: Style0_text-a,Bundled Sans,48"));
    assert!(contents.contains("; FontPath: fonts/Bundled-Sans.ttf"));
}

#[test]
fn capability_classifies_missing_text_font_without_silent_fallback() {
    let overlay = render_overlay(styled_text("no font", None));
    let error = resolve_text_font(&overlay, &TextRenderCapability::default(), &registry())
        .expect_err("missing font should be classified");
    assert_eq!(error.kind, FfmpegCompileErrorKind::MissingTextFont);
    assert!(error.remediation.contains("VE_TEXT_FONT_PATH"));
    assert_eq!(error.material_id.as_deref(), Some("text-material"));

    let bundled_unavailable = render_overlay(styled_text("bundled", Some("bundled:text-default")));
    let error = resolve_text_font(&bundled_unavailable, &env_font_capability(), &registry()).unwrap_err();
    assert_eq!(error.message, "bundled text font bundled:text-default is registered but unavailable to FFmpeg");
}

#[test]
fn capability_classifies_missing_ass_or_subtitle_filter_support() {
    let plan = RenderTextPlan {
        canvas_width: 1920,
        canvas_height: 1080,
        output_timerange: TargetTimerange::new(0, 100_000),
        text_overlays: vec![render_overlay(styled_text("t", None))],
    };
    let context = CompileContext::new("/out/export.mp4", "/derived").with_capabilities(CompilerCapabilities {
        text: TextRenderCapability { supports_ass_filter: false, ..env_font_capability() },
        ..CompilerCapabilities::default()
    });
    let error = generate_ass_sidecars(&plan, &context, "job", &registry()).expect_err("missing ASS filter support should be classified");
    assert_eq!(error.kind, FfmpegCompileErrorKind::MissingTextFilterSupport);
    assert!(error.message.contains("ASS"));

    let empty = RenderTextPlan { text_overlays: Vec::new(), ..plan };
    assert!(generate_ass_sidecars(&empty, &context, "job", &registry()).unwrap().is_empty());
}

#[test]
fn capability_classifies_unsupported_text_bubble_effect_and_font_refs() {
    let mut text = styled_text("t", Some("vendor-font-ref"));
    text.bubble = Some(TextResourceRef::Unsupported { name: "speech".to_owned() });
    text.effect = Some(TextResourceRef::Unsupported { name: "glow".to_owned() });
    let overlay = render_overlay(text);
    let error = reject_unsupported_text_resources(&overlay, &registry())
        .expect_err("unsupported text resources should be classified before ASS output");
    assert_eq!(error.kind, FfmpegCompileErrorKind::UnsupportedTextResource);
    assert_eq!(error.message, "text segment text-a contains unsupported text resources: bubble, effect, fontRef vendor-font-ref");
    assert!(error.remediation.contains("Remove or replace"));
    assert!(reject_unsupported_text_resources(&render_overlay(styled_text("t", None)), &registry()).is_ok());
}

// --- filters ------------------------------------------------------------------

fn audio_mix(fade_in: u64, fade_out: u64, keyframes: Vec<Keyframe>) -> RenderAudioMix {
    RenderAudioMix {
        track_id: "audio-track".to_owned(),
        segment_id: "audio-a".to_owned(),
        material_id: "audio-material".to_owned(),
        source_timerange: SourceTimerange::new(600_000, 100_000),
        target_timerange: TargetTimerange::new(0, 100_000),
        gain_millis: 750,
        pan_balance_millis: 500,
        fade_in_duration: fade_in,
        fade_out_duration: fade_out,
        retime: retime_intent(speed(1, 1), RenderIntentSupport::Supported, true),
        volume_keyframes: keyframes,
        effect_slots: vec![RenderAudioEffectSlot { slot_id: "external-space".to_owned(), name: "Space".to_owned(), enabled: true }],
        filters: Vec::new(),
        audible: true,
    }
}

#[test]
fn audio_filters_compile_gain_pan_fades_and_classify_unsupported_effect_slots() {
    let audio = audio_mix(100_000, 200_000, Vec::new());
    let compiled = compile_audio_mix_filters(
        &audio,
        &SourceTimerange::new(600_000, 100_000),
        &TargetTimerange::new(0, 100_000),
        AudioTimelineAlignment::OutputTimeline,
        Vec::new(),
    );
    assert_eq!(
        compiled.filters,
        vec![
            "atrim=start=0.600000:duration=0.100000",
            "asetpts=PTS-STARTPTS",
            "volume=0.750",
            "pan=stereo|c0=0.500*c0|c1=1.000*c1",
            "afade=t=in:st=0:d=0.100000",
            "afade=t=out:st=0.000000:d=0.200000",
        ]
    );
    assert!(compiled.diagnostics.is_empty());
    assert!(reject_unsupported_audio_automation(&audio).is_ok());

    let automated = audio_mix(
        0,
        0,
        vec![Keyframe {
            property: KeyframeProperty::Volume,
            at: 0,
            value: KeyframeValue::Uint { value: 500 },
            interpolation: KeyframeInterpolation::Linear,
            easing: KeyframeEasing::NoEasing,
        }],
    );
    let error = reject_unsupported_audio_automation(&automated).unwrap_err();
    assert_eq!(error.kind, FfmpegCompileErrorKind::UnsupportedAudioAutomation);
    assert_eq!(error.material_id.as_deref(), Some("audio-material"));
}

#[test]
fn delayed_audio_is_placed_on_the_output_timeline_and_retimed_with_the_tempo_chain() {
    let mut audio = audio_mix(0, 0, Vec::new());
    audio.target_timerange = TargetTimerange::new(1_250_000, 100_000);
    audio.pan_balance_millis = 0;
    audio.retime = retime_intent(speed(2, 1), RenderIntentSupport::Supported, true);
    let compiled = compile_audio_mix_filters(
        &audio,
        &SourceTimerange::new(0, 200_000),
        &TargetTimerange::new(1_000_000, 1_000_000),
        AudioTimelineAlignment::OutputTimeline,
        vec!["atempo=2.000000".to_owned()],
    );
    assert_eq!(
        compiled.filters,
        vec!["atrim=start=0.000000:duration=0.200000", "asetpts=PTS-STARTPTS", "adelay=250|250", "volume=0.750", "atempo=2.000000"]
    );
}

#[test]
fn values_and_colours_are_written_as_ffmpeg_arguments() {
    assert_eq!(volume_arg(1_250), "1.250");
    assert_eq!(pan_filter(-250), "pan=stereo|c0=1.000*c0|c1=0.750*c1");
    assert_eq!(pan_filter(5_000), "pan=stereo|c0=0.000*c0|c1=1.000*c1");
    assert_eq!(frame_rate_arg(&RationalFrameRate::new(30_000, 1_001)), "30000/1001");
    assert_eq!(escape_filter_path("/tmp/it's\\x.ass"), "/tmp/it\\'s\\\\x.ass");
    assert_eq!(hex_color_to_ffmpeg_arg(" #224466 "), Some("0x224466".to_owned()));
    assert_eq!(hex_color_to_ffmpeg_arg("#2244zz"), None);
    assert_eq!(canvas_background_color_arg(&CanvasBackground::Black), "black");
    assert_eq!(canvas_background_color_arg(&CanvasBackground::SolidColor { color: "#abcdef".to_owned() }), "0xABCDEF");
    assert_eq!(
        segment_background_color_arg(&BackgroundFilling::SolidColor { color: "#224466".to_owned() }),
        Some("0x224466".to_owned())
    );
    assert_eq!(segment_background_color_arg(&BackgroundFilling::Blur), None);
}

#[test]
fn transform_fit_mode_background_fill_and_visual_diagnostics_are_preserved() {
    let source = LayerDimensions { width: 720, height: 1280 };
    let output = LayerDimensions { width: 1920, height: 1080 };
    assert_eq!(fit_dimensions(source, output), LayerDimensions { width: 608, height: 1080 });
    assert_eq!(fill_dimensions(source, output), LayerDimensions { width: 1920, height: 3413 });
    assert_eq!(
        scaled_dimensions(LayerDimensions { width: 1920, height: 1080 }, &SegmentScale { x_millis: 450, y_millis: 500 }),
        LayerDimensions { width: 864, height: 540 }
    );
    let crop = SegmentCrop { left_millis: 250, top_millis: 0, right_millis: 250, bottom_millis: 0 };
    assert!(crop_is_active(&crop));
    assert_eq!(cropped_dimensions(LayerDimensions { width: 1000, height: 500 }, &crop), LayerDimensions { width: 500, height: 500 });
    assert_eq!(render_material_dimensions(Some(640), None), LayerDimensions { width: 640, height: 1 });
    assert_eq!(normalized_millis_to_canvas_pixel(1920, 0), 960);
    assert_eq!(normalized_millis_to_canvas_pixel(1920, -1000), 0);
    assert_eq!(
        layer_placement(0, 0, &SegmentAnchor { x_millis: 500, y_millis: 500 }, output, LayerDimensions { width: 864, height: 540 }),
        LayerPlacement { x: 528, y: 270 }
    );
}

#[test]
fn output_windows_clip_targets_and_sources() {
    let output = TargetTimerange::new(1_000_000, 1_000_000);
    assert_eq!(active_target_range(&TargetTimerange::new(500_000, 1_000_000), &output), Some((0, 500_000)));
    assert_eq!(active_target_range(&TargetTimerange::new(3_000_000, 10), &output), None);
    assert_eq!(
        clipped_source_timerange(&SourceTimerange::new(100, 1_000_000), &TargetTimerange::new(500_000, 1_000_000), &output),
        Some(SourceTimerange::new(500_100, 500_000))
    );
    assert_eq!(target_delay_from_output(&TargetTimerange::new(1_250_000, 10), &output), 250_000);
    assert_eq!(target_delay_from_output(&TargetTimerange::new(0, 10), &output), 0);
    assert_eq!(delay_millis(250_000), 250);
    assert!(ranges_cover_output_contiguously(&vec![(0, 400), (400, 1_000)], 1_000));
    assert!(!ranges_cover_output_contiguously(&vec![(0, 400), (500, 1_000)], 1_000));
}

#[test]
fn subtitles_filter_points_ffmpeg_at_the_sidecar_font_directory() {
    let contents = "[Script Info]\nScriptType: v4.00+\n; FontPath:   /fonts/cjk/PingFang.ttc  \n; TextBox: 1x1\n";
    assert_eq!(ass_font_dir(contents), Some("/fonts/cjk".to_owned()));
    assert_eq!(ass_font_dir("; FontPath: PingFang.ttc"), None);
    assert_eq!(ass_font_dir("no font here"), None);
    assert_eq!(non_empty_dir(Some(String::new())), None);
    let with_font = FfmpegSidecar {
        sidecar_id: "job-text-a".to_owned(),
        kind: FfmpegSidecarKind::AssSubtitle,
        segment_id: Some("text-a".to_owned()),
        path: "/derived/job-text-a.ass".to_owned(),
        contents: contents.to_owned(),
    };
    assert_eq!(subtitles_filter(&with_font), "subtitles=filename='/derived/job-text-a.ass':fontsdir='/fonts/cjk'");
    let without_font = FfmpegSidecar { contents: "[Script Info]\n".to_owned(), ..with_font };
    assert_eq!(subtitles_filter(&without_font), "subtitles='/derived/job-text-a.ass'");
}

fn audio_label(track: &str, label: &str, start: u64, end: u64) -> AudioLabel {
    AudioLabel { track_id: track.to_owned(), label: label.to_owned(), active_start: start, active_end: end }
}

#[test]
fn audio_output_mixes_every_stream_without_track_concat() {
    let labels = vec![audio_label("audio-b", "a0", 0, 100_000), audio_label("audio-a", "a1", 0, 100_000)];
    let output = TargetTimerange::new(0, 100_000);
    let mut lines = vec!["[vtext0]format=yuv420p[vout]".to_owned()];
    let mix = append_audio_output_filters(&mut lines, &labels, &output, false);
    assert_eq!(mix, vec!["a0".to_owned(), "a1".to_owned()]);
    assert_eq!(
        lines.join(";\n"),
        "[vtext0]format=yuv420p[vout];\n[a0][a1]amix=inputs=2:duration=longest:normalize=0[aout]"
    );
}

#[test]
fn audio_tracks_that_tile_the_output_are_concatenated_per_track() {
    let output = TargetTimerange::new(0, 1_000);
    let labels = vec![
        audio_label("track-b", "b0", 0, 1_000),
        audio_label("track-a", "a1", 400, 1_000),
        audio_label("track-a", "a0", 0, 400),
    ];
    assert!(audio_track_can_concat(&vec![labels[1].clone(), labels[2].clone()], &output));
    let mut lines: Vec<String> = Vec::new();
    let mix = audio_mix_labels(&mut lines, &labels, &output, true);
    assert_eq!(mix, vec!["atrack0".to_owned(), "b0".to_owned()]);
    assert_eq!(lines, vec!["[a1][a0]concat=n=2:v=0:a=1[atrack0]".to_owned()]);

    let mut out_lines: Vec<String> = Vec::new();
    append_audio_output_filters(&mut out_lines, &labels, &output, true);
    assert_eq!(
        out_lines,
        vec![
            "[a1][a0]concat=n=2:v=0:a=1[atrack0]".to_owned(),
            "[atrack0][b0]amix=inputs=2:duration=longest:normalize=0[aout]".to_owned(),
        ]
    );
}

#[test]
fn audio_with_gaps_or_a_single_stream_is_mixed_directly() {
    let output = TargetTimerange::new(0, 1_000);
    let gapped = vec![audio_label("track-a", "a0", 0, 400), audio_label("track-a", "a1", 500, 1_000)];
    let mut lines: Vec<String> = Vec::new();
    assert_eq!(audio_mix_labels(&mut lines, &gapped, &output, true), vec!["a0".to_owned(), "a1".to_owned()]);
    assert!(lines.is_empty());
    let mut single: Vec<String> = Vec::new();
    append_audio_output_filters(&mut single, &vec![audio_label("t", "a0", 0, 1_000)], &output, true);
    assert_eq!(single, vec!["[a0]anull[aout]".to_owned()]);
    let mut none: Vec<String> = Vec::new();
    assert!(append_audio_output_filters(&mut none, &Vec::new(), &output, true).is_empty());
    assert!(none.is_empty());
}

fn audible_track_segment(track: &str, segment: &str, target_start: u64, duration: u64) -> RenderAudioMix {
    let mut audio = audio_mix(0, 0, Vec::new());
    audio.track_id = track.to_owned();
    audio.segment_id = segment.to_owned();
    audio.source_timerange = SourceTimerange::new(0, duration);
    audio.target_timerange = TargetTimerange::new(target_start, duration);
    audio
}

#[test]
fn audio_is_concatenated_only_when_every_track_tiles_the_output_at_normal_speed() {
    let output = TargetTimerange::new(0, 1_000);
    let tiled = vec![
        audible_track_segment("track-a", "a0", 0, 400),
        audible_track_segment("track-a", "a1", 400, 600),
        audible_track_segment("track-b", "b0", 0, 1_000),
    ];
    assert!(can_concat_audio_mixes(&tiled, &output));
    assert_eq!(clipped_audio_source_timerange(&tiled[1], &output), Some(SourceTimerange::new(0, 600)));

    let mut gapped = tiled.clone();
    gapped[1].target_timerange = TargetTimerange::new(500, 500);
    assert!(!can_concat_audio_mixes(&gapped, &output));

    let mut retimed = tiled.clone();
    retimed[2].retime = retime_intent(speed(2, 1), RenderIntentSupport::Supported, true);
    assert!(!is_unity_retime(&retimed[2].retime));
    assert!(!can_concat_audio_mixes(&retimed, &output));

    let mut muted = tiled.clone();
    muted[0].audible = false;
    assert!(!can_concat_audio_mixes(&muted, &output));

    assert!(!can_concat_audio_mixes(&Vec::new(), &output));
    let outside = vec![audible_track_segment("track-a", "late", 5_000, 100)];
    assert!(!can_concat_audio_mixes(&outside, &output));
    assert!(is_unity_retime(&tiled[0].retime));
}

#[test]
fn audio_source_inside_the_output_comes_from_the_retime_mapping_first() {
    let mut audio = audible_track_segment("track-a", "a0", 0, 1_000);
    audio.retime.source_mapping = RenderRetimeSourceMapping {
        target_timerange: TargetTimerange::new(0, 1_000),
        retimed_source_timerange: SourceTimerange::new(5_000, 2_000),
    };
    assert_eq!(clipped_audio_source_timerange(&audio, &TargetTimerange::new(500, 500)), Some(SourceTimerange::new(6_000, 1_000)));
}

fn input(index: u32, material: &str) -> FfmpegInput {
    FfmpegInput {
        input_index: index,
        material_id: material.to_owned(),
        material_kind: MaterialKind::Video,
        uri: format!("file:///{material}.mp4"),
        ffmpeg_path: format!("/{material}.mp4"),
        has_video: true,
        has_audio: true,
    }
}

#[test]
fn inputs_are_found_by_material_and_missing_ones_are_reported() {
    let inputs = vec![input(0, "a"), input(1, "b"), input(2, "a")];
    assert_eq!(input_index_by_material(&inputs, "a"), Some(2));
    assert_eq!(input_index_by_material(&inputs, "b"), Some(1));
    assert_eq!(input_index_by_material(&inputs, "c"), None);
    let error = missing_input(&"c".to_owned());
    assert_eq!(error.kind, FfmpegCompileErrorKind::MissingInputMaterial);
    assert_eq!(error.message, "render graph references material c without a matching FFmpeg input");
    assert_eq!(error.material_id, Some("c".to_owned()));
    assert_eq!(output_duration(&export_profile()), 100_000);
}

#[test]
fn video_output_burns_in_each_subtitle_file_then_converts_the_pixel_format() {
    let sidecar = |name: &str| FfmpegSidecar {
        sidecar_id: name.to_owned(),
        kind: FfmpegSidecarKind::AssSubtitle,
        segment_id: None,
        path: format!("/derived/{name}.ass"),
        contents: "[Script Info]\n".to_owned(),
    };
    let mut lines = vec!["[0:v]null[v0]".to_owned()];
    let sidecars = vec![sidecar("a"), sidecar("b")];
    assert!(append_video_output_filters(&mut lines, "vbase1".to_owned(), true, &sidecars).is_ok());
    assert_eq!(
        lines,
        vec![
            "[0:v]null[v0]".to_owned(),
            "[vbase1]subtitles='/derived/a.ass'[vtext0]".to_owned(),
            "[vtext0]subtitles='/derived/b.ass'[vtext1]".to_owned(),
            "[vtext1]format=yuv420p[vout]".to_owned(),
        ]
    );

    let mut plain = Vec::new();
    assert!(append_video_output_filters(&mut plain, "vbase0".to_owned(), false, &Vec::new()).is_ok());
    assert_eq!(plain, vec!["[vbase0]format=yuv420p[vout]".to_owned()]);

    let mut untouched = vec!["x".to_owned()];
    let error = append_video_output_filters(&mut untouched, "vbase0".to_owned(), true, &Vec::new()).unwrap_err();
    assert_eq!(error.kind, FfmpegCompileErrorKind::MissingTextFont);
    assert_eq!(error.message, "text overlays did not produce an ASS sidecar");
    assert_eq!(untouched, vec!["x".to_owned()]);
}

#[test]
fn audio_streams_read_each_playing_segment_from_its_input() {
    let playing = audio_mix(0, 0, Vec::new());
    let mut outside = audio_mix(0, 0, Vec::new());
    outside.segment_id = "audio-late".to_owned();
    outside.target_timerange = TargetTimerange::new(500_000, 100_000);
    let mixes = vec![outside, playing];
    let inputs = vec![input(3, "audio-material")];
    let compiled = compile_audio_streams(&mixes, &inputs, &TargetTimerange::new(0, 100_000), &vec![Vec::new(), Vec::new()])
        .expect("the playing segment compiles");
    assert!(compiled.concat_tracks);
    assert_eq!(
        compiled.lines,
        vec!["[3:a]atrim=start=0.600000:duration=0.100000,asetpts=PTS-STARTPTS,volume=0.750,pan=stereo|c0=0.500*c0|c1=1.000*c1[a1]".to_owned()]
    );
    assert_eq!(compiled.labels.len(), 1);
    assert_eq!(
        (compiled.labels[0].track_id.as_str(), compiled.labels[0].label.as_str(), compiled.labels[0].active_start, compiled.labels[0].active_end),
        ("audio-track", "a1", 0, 100_000)
    );
    assert_eq!(compiled.diagnostics.len(), 1);
    assert_eq!(compiled.diagnostics[0].property, "audioEffectSlot.external-space");
    assert_eq!(compiled.diagnostics[0].support, RenderIntentSupport::Unsupported);
}

#[test]
fn audio_streams_fail_on_automation_or_a_missing_input() {
    let automated = audio_mix(0, 0, vec![Keyframe {
        property: KeyframeProperty::Volume,
        at: 0,
        value: KeyframeValue::Uint { value: 500 },
        interpolation: KeyframeInterpolation::Linear,
        easing: KeyframeEasing::NoEasing,
    }]);
    let output = TargetTimerange::new(0, 100_000);
    let inputs = vec![input(0, "audio-material")];
    let error = compile_audio_streams(&vec![automated.clone()], &inputs, &output, &vec![Vec::new()]).unwrap_err();
    assert_eq!(error.kind, FfmpegCompileErrorKind::UnsupportedAudioAutomation);
    let error = compile_audio_streams(&vec![audio_mix(0, 0, Vec::new())], &Vec::new(), &output, &vec![Vec::new()]).unwrap_err();
    assert_eq!(error.kind, FfmpegCompileErrorKind::MissingInputMaterial);
    assert_eq!(error.material_id, Some("audio-material".to_owned()));
    let mut late = automated.clone();
    late.target_timerange = TargetTimerange::new(500_000, 100_000);
    let mixed = compile_audio_streams(&vec![late, audio_mix(0, 0, Vec::new())], &inputs, &output, &vec![Vec::new(), Vec::new()])
        .expect("automation outside the window is no error");
    assert!(!mixed.concat_tracks);
    assert_eq!(mixed.lines.len(), 1);
    let none = compile_audio_streams(&Vec::new(), &inputs, &output, &Vec::new()).expect("no audio");
    assert!(none.lines.is_empty() && none.labels.is_empty() && !none.concat_tracks);
}
