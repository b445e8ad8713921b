use editor_core::compiler::filters::{SegmentCrop, SegmentFitMode};
use editor_core::engine::error::EngineErrorKind;
use editor_core::engine::frame_state::{
    frame_index_to_microseconds, resolve_frame_state, resolve_render_range, resolve_segment_volume,
};
use editor_core::engine::keyframes::{
    resolve_color_keyframe, resolve_int_keyframe, resolve_uint_keyframe, Keyframe, KeyframeEasing,
    KeyframeInterpolation, KeyframeProperty, KeyframeValue,
};
use editor_core::engine::model::{
    AudioRetimePolicy, BackgroundFilling, CanvasBackground, CanvasConfig, Draft, Material,
    MaterialKind, MaterialStatus, RationalFrameRate, RetimeMode, Segment, SegmentRetiming,
    SegmentVisual, SourceTimerange, SpeedCurvePoint, SpeedRatio, TargetTimerange, TextAlignment,
    TextBox, TextFont, TextLayoutRegion, TextSegment, TextSegmentSource, TextStyle, TextWrapping,
    Track, TrackKind, VisualTransform,
};
use editor_core::engine::normalize::{normalize_draft, EngineProfile, MaterialRenderableState};
use editor_core::engine::text_layout::{BundledTextFont, TextLayoutProfile};
use editor_core::engine::time_mapping::{retimed_source_range, source_position_for_retime, SegmentTimeMap};

fn bundled() -> BundledTextFont {
    BundledTextFont {
        family: "PingFang SC".to_owned(),
        font_ref: "bundled:text-default".to_owned(),
        relative_path: "fonts/PingFang.ttc".to_owned(),
    }
}

fn identity_retiming() -> SegmentRetiming {
    SegmentRetiming {
        mode: RetimeMode::Constant { speed: SpeedRatio::one() },
        audio_policy: AudioRetimePolicy::FollowVideoSpeed,
    }
}

fn default_visual() -> SegmentVisual {
    SegmentVisual {
        visible: true,
        transform: VisualTransform {
            position_x: 0,
            position_y: 0,
            scale_x_millis: 1000,
            scale_y_millis: 1000,
            rotation_degrees: 0,
            opacity_millis: 1000,
            crop: SegmentCrop { left_millis: 0, right_millis: 0, top_millis: 0, bottom_millis: 0 },
        },
        fit_mode: SegmentFitMode::Fit,
        background_filling: BackgroundFilling::NoFilling,
        blend_reference: None,
        mask_reference: None,
    }
}

fn text_segment(content: &str, font_size: u32) -> TextSegment {
    TextSegment {
        content: content.to_owned(),
        source: TextSegmentSource::Text,
        style: TextStyle {
            font: TextFont { family: String::new(), font_ref: None },
            font_size,
            color: "#ffffff".to_owned(),
            alignment: TextAlignment::Center,
            line_height_millis: 1200,
            letter_spacing_millis: 0,
            stroke: None,
            shadow: None,
            background: None,
        },
        text_box: TextBox { width_millis: 1000, height_millis: 1000 },
        layout_region: TextLayoutRegion { x_millis: 50, y_millis: 50, width_millis: 900, height_millis: 900 },
        wrapping: TextWrapping::Auto,
        bubble: None,
        effect: None,
    }
}

fn material(material_id: &str, kind: MaterialKind, uri: &str, duration: u64) -> Material {
    Material {
        material_id: material_id.to_owned(),
        kind,
        uri: uri.to_owned(),
        display_name: material_id.to_owned(),
        status: MaterialStatus::Available,
        duration: Some(duration),
        width: Some(1920),
        height: Some(1080),
        has_video: matches!(kind, MaterialKind::Video | MaterialKind::Image),
        has_audio: matches!(kind, MaterialKind::Audio | MaterialKind::Video),
    }
}

fn segment(segment_id: &str, material_id: &str, source_start: u64, target_start: u64, duration: u64) -> Segment {
    Segment {
        segment_id: segment_id.to_owned(),
        material_id: material_id.to_owned(),
        source_timerange: SourceTimerange::new(source_start, duration),
        target_timerange: TargetTimerange::new(target_start, duration),
        retiming: identity_retiming(),
        keyframes: Vec::new(),
        text: None,
        volume_level_millis: 1000,
        visual: default_visual(),
    }
}

fn track(track_id: &str, kind: TrackKind, name: &str) -> Track {
    Track { track_id: track_id.to_owned(), kind, name: name.to_owned(), muted: false, visible: true, segments: Vec::new() }
}

fn empty_draft(draft_id: &str) -> Draft {
    Draft {
        draft_id: draft_id.to_owned(),
        name: String::new(),
        canvas_config: CanvasConfig {
            frame_rate: RationalFrameRate::new(30, 1),
            width: 1920,
            height: 1080,
            background: CanvasBackground::Black,
        },
        tracks: Vec::new(),
        materials: Vec::new(),
    }
}

fn complete_draft() -> Draft {
    let mut draft = empty_draft("draft-normalize");
    draft.materials = vec![
        material("video-material", MaterialKind::Video, "file://video.mp4", 3_000_000),
        material("image-material", MaterialKind::Image, "file://image.png", 3_000_000),
        material("audio-material", MaterialKind::Audio, "file://audio.wav", 3_000_000),
        material("text-material", MaterialKind::Text, "text://caption", 3_000_000),
    ];
    let mut video_track = track("video-track", TrackKind::Video, "视频");
    video_track.segments = vec![
        segment("video-b", "video-material", 1_000_000, 500_000, 1_000_000),
        segment("video-a", "video-material", 0, 0, 1_000_000),
    ];
    let mut image_track = track("image-track", TrackKind::Video, "图片");
    image_track.segments.push(segment("image-a", "image-material", 0, 250_000, 1_000_000));
    let mut text_track = track("text-track", TrackKind::Text, "文字");
    let mut text = segment("text-a", "text-material", 0, 0, 1_000_000);
    text.text = Some(text_segment("字幕", 42));
    text_track.segments.push(text);
    let mut audio_track = track("audio-track", TrackKind::Audio, "音频");
    audio_track.segments.push(segment("audio-a", "audio-material", 0, 0, 1_000_000));
    draft.tracks = vec![video_track, image_track, text_track, audio_track];
    draft
}

fn frame_state_draft() -> Draft {
    let mut draft = empty_draft("draft-frame-state");
    draft.materials = vec![
        material("video-material", MaterialKind::Video, "file://video.mp4", 2_000_000),
        material("overlay-material", MaterialKind::Image, "file://overlay.png", 2_000_000),
        material("audio-material", MaterialKind::Audio, "file://audio.wav", 2_000_000),
        material("text-material", MaterialKind::Text, "text://title", 2_000_000),
    ];
    let mut video_track = track("video-track", TrackKind::Video, "视频");
    video_track.segments.push(segment("video-a", "video-material", 100_000, 0, 1_000_000));
    let mut overlay_track = track("overlay-track", TrackKind::Video, "叠加");
    overlay_track.segments.push(segment("overlay-a", "overlay-material", 0, 0, 1_000_000));
    let mut audio_track = track("audio-track", TrackKind::Audio, "音频");
    audio_track.segments.push(segment("audio-a", "audio-material", 0, 0, 1_000_000));
    let mut text_track = track("text-track", TrackKind::Text, "文字");
    let mut text = segment("text-a", "text-material", 0, 500_000, 500_000);
    text.text = Some(text_segment("标题", 48));
    text_track.segments.push(text);
    draft.tracks = vec![video_track, overlay_track, audio_track, text_track];
    draft
}

fn draft_with_canvas(draft_id: &str, width: u32, height: u32, frame_rate: RationalFrameRate) -> Draft {
    let mut draft = empty_draft(draft_id);
    draft.canvas_config = CanvasConfig { frame_rate, width, height, background: CanvasBackground::Black };
    draft.materials = vec![material("text-material", MaterialKind::Text, "text://caption", 1_000_000)];
    let mut text_track = track("text-track", TrackKind::Text, "文字");
    let mut text = segment("text-a", "text-material", 0, 0, 1_000_000);
    text.text = Some(text_segment("画布文字", 40));
    text_track.segments.push(text);
    draft.tracks = vec![text_track];
    draft
}

fn ok() -> Result<(), String> {
    Ok(())
}

// --- normalization -------------------------------------------------------

#[test]
fn normalization_available_material_segments_are_sorted_by_track_and_target_timerange() {
    let draft = complete_draft();
    let normalized = normalize_draft(&draft, &EngineProfile::mvp_default(&bundled()), &ok())
        .expect("available draft should normalize");

    assert_eq!(normalized.draft_id.as_str(), "draft-normalize");
    assert_eq!(normalized.tracks.len(), 4);
    assert_eq!(
        normalized.tracks.iter().map(|track| (track.track_id.as_str(), track.kind)).collect::<Vec<_>>(),
        vec![
            ("video-track", TrackKind::Video),
            ("image-track", TrackKind::Video),
            ("text-track", TrackKind::Text),
            ("audio-track", TrackKind::Audio),
        ]
    );
    assert_eq!(
        normalized.tracks[0].segments.iter().map(|segment| segment.segment_id.as_str()).collect::<Vec<_>>(),
        vec!["video-a", "video-b"]
    );
    assert_eq!(normalized.tracks[0].stack_index, Some(0));
    assert_eq!(normalized.tracks[1].stack_index, Some(1));
    assert_eq!(normalized.tracks[2].stack_index, Some(2));
    assert_eq!(normalized.tracks[3].stack_index, None);
    assert_eq!(
        normalized.tracks[2].segments[0]
            .text
            .as_ref()
            .expect("text segment should keep Jianying text semantics")
            .content,
        "字幕"
    );
    assert!(normalized.diagnostics.is_empty());
    assert_eq!(normalized.duration, 1_500_000);
    assert_eq!(normalized.tracks[0].segments[1].source_end, 2_000_000);
    assert_eq!(normalized.tracks[0].segments[1].target_end, 1_500_000);
}

#[test]
fn normalization_classifies_muted_tracks_and_unavailable_materials_without_mutating_draft() {
    let mut draft = complete_draft();
    draft.tracks[0].muted = true;
    draft.materials[1].status = MaterialStatus::Missing;

    let normalized = normalize_draft(&draft, &EngineProfile::mvp_default(&bundled()), &ok())
        .expect("muted and missing material diagnostics are renderable-state, not mutation");

    assert!(draft.tracks[0].muted);
    assert_eq!(draft.materials[1].status, MaterialStatus::Missing);
    assert_eq!(draft.tracks[0].segments[0].segment_id, "video-b");
    assert_eq!(normalized.diagnostics.len(), 3);
    assert!(normalized.diagnostics.iter().any(|diagnostic| {
        diagnostic.kind == EngineErrorKind::MutedTrack
            && diagnostic.track_id.as_ref().map(|id| id.as_str()) == Some("video-track")
    }));
    assert!(normalized.diagnostics.iter().any(|diagnostic| {
        diagnostic.kind == EngineErrorKind::UnavailableMaterial
            && diagnostic.material_id.as_ref().map(|id| id.as_str()) == Some("image-material")
    }));
    assert_eq!(normalized.tracks[0].segments[0].renderable, MaterialRenderableState::MutedTrack);
    assert_eq!(normalized.tracks[1].segments[0].renderable, MaterialRenderableState::UnavailableMaterial);
}

#[test]
fn normalization_rejects_checked_timerange_overflow_and_out_of_bounds_material_ranges() {
    let mut overflow = complete_draft();
    overflow.tracks[0].segments[0].source_timerange = SourceTimerange::new(u64::MAX, 1);
    let overflow_error = normalize_draft(&overflow, &EngineProfile::mvp_default(&bundled()), &ok())
        .expect_err("overflowing sourceTimerange should be rejected");
    assert_eq!(overflow_error.kind, EngineErrorKind::TimerangeOverflow);

    let mut out_of_bounds = complete_draft();
    out_of_bounds.tracks[0].segments[0].source_timerange = SourceTimerange::new(2_900_000, 200_000);
    let bounds_error = normalize_draft(&out_of_bounds, &EngineProfile::mvp_default(&bundled()), &ok())
        .expect_err("sourceTimerange beyond material duration should be rejected");
    assert_eq!(bounds_error.kind, EngineErrorKind::SourceRangeExceedsMaterialDuration);
}

#[test]
fn normalization_visual_track_stacking_uses_existing_rust_timeline_order() {
    let mut draft = complete_draft();
    draft.tracks.swap(0, 2);
    let normalized = normalize_draft(&draft, &EngineProfile::mvp_default(&bundled()), &ok())
        .expect("reordered draft should normalize");
    let visual_stack = normalized
        .tracks
        .iter()
        .filter_map(|track| track.stack_index.map(|stack| (stack, track.track_id.as_str())))
        .collect::<Vec<_>>();
    assert_eq!(visual_stack, vec![(0, "text-track"), (1, "image-track"), (2, "video-track")]);
}

#[test]
fn normalization_reports_missing_material_and_failed_draft_validation() {
    let mut draft = complete_draft();
    draft.tracks[3].segments[0].material_id = "nowhere".to_owned();
    let error = normalize_draft(&draft, &EngineProfile::mvp_default(&bundled()), &ok()).unwrap_err();
    assert_eq!(error.kind, EngineErrorKind::MissingMaterial);

    let invalid: Result<(), String> = Err("draft failed validation".to_owned());
    let error = normalize_draft(&complete_draft(), &EngineProfile::mvp_default(&bundled()), &invalid).unwrap_err();
    assert_eq!(error.kind, EngineErrorKind::DraftValidationFailed);
    assert_eq!(error.message, "draft failed validation");
}

#[test]
fn hidden_visual_tracks_are_left_out_of_normalization() {
    let mut draft = complete_draft();
    draft.tracks[1].visible = false;
    let normalized = normalize_draft(&draft, &EngineProfile::mvp_default(&bundled()), &ok()).unwrap();
    assert_eq!(
        normalized.tracks.iter().map(|t| (t.track_id.as_str(), t.stack_index)).collect::<Vec<_>>(),
        vec![("video-track", Some(0)), ("text-track", Some(1)), ("audio-track", None)]
    );
}

#[test]
fn text_layout_invalid_profile_returns_classified_engine_error() {
    let profile = EngineProfile {
        text_layout: Some(TextLayoutProfile::invalid_for_tests()),
        ..EngineProfile::mvp_default(&bundled())
    };
    let error = normalize_draft(&frame_state_draft(), &profile, &ok())
        .expect_err("invalid text profile should not silently change layout");
    assert_eq!(error.kind, EngineErrorKind::InvalidTextLayoutProfile);
}

#[test]
fn engine_profile_rejects_zero_frame_rate_and_zero_canvas() {
    let mut profile = EngineProfile::mvp_default(&bundled());
    profile.frame_rate = RationalFrameRate::new(0, 1);
    assert_eq!(profile.validate().unwrap_err().kind, EngineErrorKind::InvalidFrameRate);
    let mut profile = EngineProfile::mvp_default(&bundled());
    profile.canvas_width = 0;
    assert_eq!(profile.validate().unwrap_err().kind, EngineErrorKind::InvalidEngineProfile);
    assert!(EngineProfile::mvp_default(&bundled()).validate().is_ok());
}

// --- frame state ---------------------------------------------------------

#[test]
fn frame_state_resolves_active_visual_audio_and_text_segments_at_microsecond_position() {
    let normalized = normalize_draft(&frame_state_draft(), &EngineProfile::mvp_default(&bundled()), &ok())
        .expect("draft should normalize");
    let frame = resolve_frame_state(&normalized, 600_000).expect("frame state should resolve");

    assert_eq!(frame.at, 600_000);
    assert_eq!(
        frame
            .visual_layers
            .iter()
            .map(|layer| (
                layer.track_id.as_str(),
                layer.segment_id.as_str(),
                layer.material_id.as_str(),
                layer.stack_index,
                layer.source_position,
            ))
            .collect::<Vec<_>>(),
        vec![
            ("video-track", "video-a", "video-material", 0, 700_000),
            ("overlay-track", "overlay-a", "overlay-material", 1, 600_000),
        ]
    );
    assert_eq!(
        frame
            .audio_segments
            .iter()
            .map(|audio| (
                audio.track_id.as_str(),
                audio.segment_id.as_str(),
                audio.material_id.as_str(),
                audio.source_position,
                audio.volume_level_millis,
            ))
            .collect::<Vec<_>>(),
        vec![("audio-track", "audio-a", "audio-material", 600_000, 1_000)]
    );
    assert_eq!(
        frame
            .text_overlays
            .iter()
            .map(|overlay| (
                overlay.track_id.as_str(),
                overlay.segment_id.as_str(),
                overlay.content.as_str(),
                overlay.stack_index,
                overlay.source_position,
            ))
            .collect::<Vec<_>>(),
        vec![("text-track", "text-a", "标题", 2, 100_000)]
    );
}

#[test]
fn frame_index_sampling_uses_rational_frame_rate_without_floating_point_fields() {
    let ntsc = RationalFrameRate::new(30_000, 1_001);
    assert_eq!(frame_index_to_microseconds(0, &ntsc).expect("frame zero"), 0);
    assert_eq!(frame_index_to_microseconds(30, &ntsc).expect("frame thirty"), 1_001_000);
    assert_eq!(frame_index_to_microseconds(1, &RationalFrameRate::new(30, 1)).unwrap(), 33_333);
    assert_eq!(
        frame_index_to_microseconds(1, &RationalFrameRate::new(0, 1)).unwrap_err().kind,
        EngineErrorKind::InvalidFrameRate
    );
}

#[test]
fn render_range_state_samples_frame_positions_and_resolves_stable_json_snapshot() {
    let normalized = normalize_draft(&frame_state_draft(), &EngineProfile::mvp_default(&bundled()), &ok())
        .expect("draft should normalize");
    let range = resolve_render_range(&normalized, TargetTimerange::new(0, 100_000)).expect("render range should resolve");

    assert_eq!(range.target_timerange, TargetTimerange::new(0, 100_000));
    assert_eq!(range.frame_rate, RationalFrameRate::new(30, 1));
    assert_eq!(range.frames.iter().map(|f| f.at).collect::<Vec<_>>(), vec![0, 33_333, 66_666]);
    for frame in &range.frames {
        assert_eq!(
            frame
                .visual_layers
                .iter()
                .map(|l| (l.track_id.as_str(), l.segment_id.as_str(), l.material_kind, l.stack_index, l.source_position))
                .collect::<Vec<_>>(),
            vec![
                ("video-track", "video-a", MaterialKind::Video, 0, 100_000 + frame.at),
                ("overlay-track", "overlay-a", MaterialKind::Image, 1, frame.at),
            ]
        );
        assert_eq!(frame.visual_layers[0].target_timerange, TargetTimerange::new(0, 1_000_000));
        assert_eq!(
            frame
                .audio_segments
                .iter()
                .map(|a| (a.track_id.as_str(), a.segment_id.as_str(), a.source_position, a.volume_level_millis))
                .collect::<Vec<_>>(),
            vec![("audio-track", "audio-a", frame.at, 1000)]
        );
        assert!(frame.text_overlays.is_empty());
    }
}

#[test]
fn render_range_starting_later_samples_from_its_start() {
    let normalized = normalize_draft(&frame_state_draft(), &EngineProfile::mvp_default(&bundled()), &ok()).unwrap();
    let range = resolve_render_range(&normalized, TargetTimerange::new(100_000, 100_000)).unwrap();
    assert_eq!(range.frames.iter().map(|f| f.at).collect::<Vec<_>>(), vec![100_000, 133_333, 166_666]);
}

#[test]
fn text_layout_resolves_pinned_profile_values_for_active_text_overlay() {
    let normalized = normalize_draft(&frame_state_draft(), &EngineProfile::mvp_default(&bundled()), &ok())
        .expect("draft should normalize");
    let frame = resolve_frame_state(&normalized, 600_000).expect("frame state should resolve");
    let overlay = frame.text_overlays.first().expect("active text overlay should be resolved");

    assert_eq!(overlay.font_family, "PingFang SC");
    assert_eq!(overlay.font_candidate, "VE_TEXT_FONT_PATH");
    assert_eq!(
        overlay.fallback_candidates,
        vec![
            "VE_TEXT_FONT_PATH",
            "/System/Library/Fonts/PingFang.ttc",
            "/System/Library/Fonts/Supplemental/Arial Unicode.ttf",
            "/usr/share/fonts/opentype/noto/NotoSansCJK-Regular.ttc",
            "/usr/share/fonts/truetype/dejavu/DejaVuSans.ttf",
        ]
    );
    assert_eq!(overlay.alignment, TextAlignment::Center);
    assert_eq!(overlay.safe_area.left, 96);
    assert_eq!(overlay.safe_area.top, 54);
    assert_eq!(overlay.wrapping_policy.as_str(), "boundedWidth");
    assert_eq!(overlay.style.color, "#ffffff");
    assert!(overlay.style.stroke.is_none());
    assert!(overlay.style.shadow.is_none());
    assert!(overlay.style.background.is_none());
    assert_eq!(overlay.layout_width, 1_728);
    assert_eq!(overlay.layout_height, 58);
}

#[test]
fn text_layout_missing_profile_returns_classified_engine_error() {
    let profile = EngineProfile { text_layout: None, ..EngineProfile::mvp_default(&bundled()) };
    let normalized = normalize_draft(&frame_state_draft(), &profile, &ok())
        .expect("missing text layout is classified when text overlay is resolved");
    let error = resolve_frame_state(&normalized, 600_000).expect_err("active text segment without profile should fail");
    assert_eq!(error.kind, EngineErrorKind::MissingTextLayoutProfile);
}

#[test]
fn frame_state_before_and_after_segments_is_empty_where_nothing_covers() {
    let normalized = normalize_draft(&frame_state_draft(), &EngineProfile::mvp_default(&bundled()), &ok()).unwrap();
    let frame = resolve_frame_state(&normalized, 1_000_000).unwrap();
    assert!(frame.visual_layers.is_empty());
    assert!(frame.audio_segments.is_empty());
    assert!(frame.text_overlays.is_empty());
}

// --- canvas profile ------------------------------------------------------

#[test]
fn vertical_draft_canvas_resolves_engine_profile_and_text_layout() {
    let draft = draft_with_canvas("draft-vertical-canvas", 1_080, 1_920, RationalFrameRate::new(25, 1));
    let profile = EngineProfile::from_draft_canvas(&bundled(), &draft, &ok()).expect("draft canvas profile should resolve");
    assert_eq!(profile.canvas_width, 1_080);
    assert_eq!(profile.canvas_height, 1_920);
    assert_eq!(profile.frame_rate, RationalFrameRate::new(25, 1));
    profile.validate().expect("text layout derived from vertical canvas should be valid");

    let normalized = normalize_draft(&draft, &profile, &ok()).expect("vertical draft should normalize");
    let frame = resolve_frame_state(&normalized, 0).expect("text frame state should resolve");
    let overlay = frame.text_overlays.first().expect("active text overlay should be resolved");
    assert_eq!(overlay.layout_width, 972);
    assert_eq!(overlay.safe_area.left, 54);
    assert_eq!(overlay.safe_area.top, 96);
}

#[test]
fn square_draft_canvas_drives_render_range_without_mvp_defaults() {
    let draft = draft_with_canvas("draft-square-canvas", 1_024, 1_024, RationalFrameRate::new(24, 1));
    let profile = EngineProfile::from_draft_canvas(&bundled(), &draft, &ok()).expect("square canvas profile should resolve");
    let normalized = normalize_draft(&draft, &profile, &ok()).expect("square draft should normalize");
    let range = resolve_render_range(&normalized, TargetTimerange::new(0, 1_000_000)).expect("square render range should resolve");

    assert_eq!(normalized.profile.canvas_width, 1_024);
    assert_eq!(normalized.profile.canvas_height, 1_024);
    assert_eq!(range.frame_rate, RationalFrameRate::new(24, 1));
    assert_eq!(range.frames.len(), 24);
    assert_ne!(normalized.profile.canvas_width, 1_920);
    assert_ne!(range.frame_rate, RationalFrameRate::new(30, 1));
}

#[test]
fn draft_canvas_profile_reports_failed_draft_validation_and_zero_frame_rate() {
    let draft = draft_with_canvas("draft-bad", 1_024, 1_024, RationalFrameRate::new(24, 1));
    let invalid: Result<(), String> = Err("bad draft".to_owned());
    let error = EngineProfile::from_draft_canvas(&bundled(), &draft, &invalid).unwrap_err();
    assert_eq!(error.kind, EngineErrorKind::DraftValidationFailed);
    let zero = draft_with_canvas("draft-zero", 1_024, 1_024, RationalFrameRate::new(0, 1));
    assert_eq!(
        EngineProfile::from_draft_canvas(&bundled(), &zero, &ok()).unwrap_err().kind,
        EngineErrorKind::InvalidFrameRate
    );
}

// --- retiming ------------------------------------------------------------

#[test]
fn phase19_retiming_engine_core_uses_segment_time_map_for_retimed_source_positions() {
    let source = SourceTimerange::new(1_000_000, 2_000_000);
    let double = SegmentRetiming {
        mode: RetimeMode::Constant { speed: SpeedRatio { numerator: 2, denominator: 1 } },
        audio_policy: AudioRetimePolicy::FollowVideoSpeed,
    };
    let map = SegmentTimeMap::new(&source, &double);
    assert_eq!(map.source_at_target(0).unwrap(), 1_000_000);
    assert_eq!(map.source_at_target(250_000).unwrap(), 1_500_000);
    assert_eq!(map.source_at_target(1_000_000).unwrap(), 3_000_000);
    assert_eq!(
        map.source_at_target(1_000_001).unwrap_err().kind,
        EngineErrorKind::SourceRangeExceedsMaterialDuration
    );

    let curve = SegmentRetiming {
        mode: RetimeMode::SpeedCurve {
            points: vec![
                SpeedCurvePoint { target_time: 0, speed: SpeedRatio { numerator: 1, denominator: 1 } },
                SpeedCurvePoint { target_time: 100_000, speed: SpeedRatio { numerator: 3, denominator: 1 } },
            ],
        },
        audio_policy: AudioRetimePolicy::PreservePitch,
    };
    let curve_map = SegmentTimeMap::new(&source, &curve);
    assert_eq!(curve_map.source_at_target(50_000).unwrap(), 1_050_000);
    assert_eq!(curve_map.source_at_target(200_000).unwrap(), 1_400_000);
    assert_eq!(source_position_for_retime(&source, 200_000, &curve).unwrap(), 1_400_000);
}

#[test]
fn phase19_retiming_frame_state_carries_retime_transition_and_effect_facts() {
    let mut draft = frame_state_draft();
    draft.tracks[0].segments[0].retiming = SegmentRetiming {
        mode: RetimeMode::Constant { speed: SpeedRatio { numerator: 1, denominator: 2 } },
        audio_policy: AudioRetimePolicy::FollowVideoSpeed,
    };
    let normalized = normalize_draft(&draft, &EngineProfile::mvp_default(&bundled()), &ok()).unwrap();
    let frame = resolve_frame_state(&normalized, 600_000).unwrap();
    let video = &frame.visual_layers[0];
    assert_eq!(video.segment_id, "video-a");
    assert_eq!(video.source_position, 400_000);
    match &video.retiming.mode {
        RetimeMode::Constant { speed } => assert_eq!(*speed, SpeedRatio { numerator: 1, denominator: 2 }),
        other => panic!("unexpected retime mode {:?}", other),
    }
    assert_eq!(video.visual.transform.opacity_millis, 1000);
}

#[test]
fn retimed_source_range_rounds_up_and_rejects_zero_speed() {
    let source = SourceTimerange::new(0, 1_000_000);
    let third = SegmentRetiming {
        mode: RetimeMode::Constant { speed: SpeedRatio { numerator: 1, denominator: 3 } },
        audio_policy: AudioRetimePolicy::FollowVideoSpeed,
    };
    assert_eq!(retimed_source_range(&source, 100_000, &third).unwrap(), SourceTimerange::new(0, 33_334));
    let zero = SegmentRetiming {
        mode: RetimeMode::Constant { speed: SpeedRatio { numerator: 0, denominator: 1 } },
        audio_policy: AudioRetimePolicy::FollowVideoSpeed,
    };
    assert_eq!(
        retimed_source_range(&source, 100_000, &zero).unwrap_err().kind,
        EngineErrorKind::DraftValidationFailed
    );
}

#[test]
fn identity_retiming_maps_each_offset_to_itself_past_the_source_start() {
    let source = SourceTimerange::new(10, 1_000);
    let identity = identity_retiming();
    for offset in [0u64, 1, 500, 1_000] {
        assert_eq!(source_position_for_retime(&source, offset, &identity).unwrap(), 10 + offset);
    }
}

#[test]
fn retimed_positions_never_decrease_with_the_target_offset() {
    let source = SourceTimerange::new(0, 10_000_000);
    let curve = SegmentRetiming {
        mode: RetimeMode::SpeedCurve {
            points: vec![
                SpeedCurvePoint { target_time: 0, speed: SpeedRatio { numerator: 1, denominator: 2 } },
                SpeedCurvePoint { target_time: 1_000, speed: SpeedRatio { numerator: 5, denominator: 3 } },
            ],
        },
        audio_policy: AudioRetimePolicy::MuteUnsupported,
    };
    let mut previous = 0u64;
    for offset in (0u64..5_000).step_by(97) {
        let position = source_position_for_retime(&source, offset, &curve).unwrap();
        assert!(position >= previous);
        assert!(position <= 10_000_000);
        previous = position;
    }
}

// --- keyframes -----------------------------------------------------------

fn keyframe(property: KeyframeProperty, at: u64, value: KeyframeValue, easing: KeyframeEasing) -> Keyframe {
    Keyframe { property, at, value, interpolation: KeyframeInterpolation::Linear, easing }
}

#[test]
fn int_keyframes_interpolate_linearly_and_hold_outside_their_span() {
    let keyframes = vec![
        keyframe(KeyframeProperty::VisualPositionX, 1_000, KeyframeValue::Int { value: 100 }, KeyframeEasing::NoEasing),
        keyframe(KeyframeProperty::VisualPositionX, 0, KeyframeValue::Int { value: 0 }, KeyframeEasing::NoEasing),
        keyframe(KeyframeProperty::VisualOpacity, 0, KeyframeValue::Uint { value: 5 }, KeyframeEasing::NoEasing),
    ];
    assert_eq!(resolve_int_keyframe(&keyframes, KeyframeProperty::VisualPositionX, 7, 500), 50);
    assert_eq!(resolve_int_keyframe(&keyframes, KeyframeProperty::VisualPositionX, 7, 2_000), 100);
    assert_eq!(resolve_int_keyframe(&keyframes, KeyframeProperty::VisualPositionY, 7, 500), 7);
}

#[test]
fn eased_uint_keyframes_and_hold_interpolation() {
    let keyframes = vec![
        keyframe(KeyframeProperty::Volume, 0, KeyframeValue::Uint { value: 0 }, KeyframeEasing::EaseIn),
        keyframe(KeyframeProperty::Volume, 1_000, KeyframeValue::Uint { value: 1_000 }, KeyframeEasing::NoEasing),
    ];
    assert_eq!(resolve_uint_keyframe(&keyframes, KeyframeProperty::Volume, 1_000, 500), 250);
    assert_eq!(resolve_segment_volume(&keyframes, 1_000, 500), 250);
    let mut hold = keyframes.clone();
    hold[0].interpolation = KeyframeInterpolation::Hold;
    assert_eq!(resolve_uint_keyframe(&hold, KeyframeProperty::Volume, 1_000, 500), 0);
}

#[test]
fn color_keyframes_step_to_the_latest_value() {
    let keyframes = vec![
        keyframe(KeyframeProperty::TextColor, 0, KeyframeValue::Color { value: "#000000".to_owned() }, KeyframeEasing::NoEasing),
        keyframe(KeyframeProperty::TextColor, 1_000, KeyframeValue::Color { value: "#ffffff".to_owned() }, KeyframeEasing::NoEasing),
    ];
    assert_eq!(resolve_color_keyframe(&keyframes, KeyframeProperty::TextColor, "#123456", 1_500), "#ffffff");
    assert_eq!(resolve_color_keyframe(&Vec::new(), KeyframeProperty::TextColor, "#123456", 0), "#123456");
}
