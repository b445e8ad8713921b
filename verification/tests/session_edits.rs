use editor_core::compiler::filters::{SegmentCrop, SegmentFitMode};
use editor_core::engine::keyframes::{Keyframe, KeyframeEasing, KeyframeInterpolation, KeyframeProperty, KeyframeValue};
use editor_core::engine::model::{
    AudioRetimePolicy, BackgroundFilling, Material, MaterialKind, MaterialStatus, RetimeMode, Segment,
    SegmentRetiming, SegmentVisual, SourceTimerange, SpeedRatio, TargetTimerange, TextAlignment, TextBackground,
    TextBox, TextFont, TextLayoutRegion, TextSegment, TextSegmentSource, TextShadow, TextStroke, TextStyle,
    TextWrapping, Track, TrackKind, VisualTransform,
};
use editor_core::runtime::session_edits::{
    apply_text_background_patch, apply_text_shadow_patch, apply_text_stroke_patch, default_subtitle_layout_region,
    default_subtitle_text_box, format_keyframe_property, format_track_kind, keyframe_property_name,
    keyframe_value_for_segment, nearest_keyframe_time, text_for_keyframe, timeline_segment_visual_kind,
    timeline_track_row_class_name, timeline_track_symbol, track_kind_class, TimelineSegmentVisualKind,
};
use editor_core::runtime::timeline_view::timeline_keyframe_markers;

fn segment_with(keyframes: Vec<Keyframe>, text: Option<TextSegment>) -> Segment {
    Segment {
        segment_id: "seg-a".to_owned(),
        material_id: "video-material".to_owned(),
        source_timerange: SourceTimerange::new(0, 1_000_000),
        target_timerange: TargetTimerange::new(0, 1_000_000),
        retiming: SegmentRetiming { mode: RetimeMode::Constant { speed: SpeedRatio::one() }, audio_policy: AudioRetimePolicy::FollowVideoSpeed },
        keyframes,
        text,
        volume_level_millis: 800,
        visual: SegmentVisual {
            visible: true,
            transform: VisualTransform {
                position_x: -120,
                position_y: 40,
                scale_x_millis: 1500,
                scale_y_millis: 900,
                rotation_degrees: 30,
                opacity_millis: 750,
                crop: SegmentCrop { left_millis: 0, right_millis: 0, top_millis: 0, bottom_millis: 0 },
            },
            fit_mode: SegmentFitMode::Fit,
            background_filling: BackgroundFilling::NoFilling,
            blend_reference: None,
            mask_reference: None,
        },
    }
}

fn text() -> TextSegment {
    TextSegment {
        content: "标题".to_owned(),
        source: TextSegmentSource::Text,
        style: TextStyle {
            font: TextFont { family: String::new(), font_ref: None },
            font_size: 42,
            color: "#ff0000".to_owned(),
            alignment: TextAlignment::Center,
            line_height_millis: 1200,
            letter_spacing_millis: 50,
            stroke: None,
            shadow: None,
            background: None,
        },
        text_box: TextBox { width_millis: 1000, height_millis: 1000 },
        layout_region: TextLayoutRegion { x_millis: 50, y_millis: 60, width_millis: 900, height_millis: 880 },
        wrapping: TextWrapping::Auto,
        bubble: None,
        effect: None,
    }
}

fn keyframe(property: KeyframeProperty, at: u64) -> Keyframe {
    Keyframe {
        property,
        at,
        value: KeyframeValue::Uint { value: 1 },
        interpolation: KeyframeInterpolation::Linear,
        easing: KeyframeEasing::NoEasing,
    }
}

#[test]
fn track_labels_symbols_and_classes() {
    assert_eq!(format_track_kind(TrackKind::Sticker), "贴纸");
    assert_eq!(timeline_track_symbol(TrackKind::Audio), "♪");
    assert_eq!(track_kind_class(TrackKind::Filter), "filter");
    let mut track = Track {
        track_id: "video-track".to_owned(),
        kind: TrackKind::Video,
        name: "视频".to_owned(),
        muted: false,
        visible: true,
        segments: Vec::new(),
    };
    assert_eq!(timeline_track_row_class_name(&track, &Vec::new()), "track-row video");
    track.visible = false;
    assert_eq!(
        timeline_track_row_class_name(&track, &vec!["other".to_owned(), "video-track".to_owned()]),
        "track-row video hidden selected-track"
    );
}

#[test]
fn segment_visual_kind_prefers_the_material_kind() {
    let image = Material {
        material_id: "m".to_owned(),
        kind: MaterialKind::Image,
        uri: "file://a.png".to_owned(),
        display_name: "a".to_owned(),
        status: MaterialStatus::Available,
        duration: None,
        width: None,
        height: None,
        has_video: true,
        has_audio: false,
    };
    assert_eq!(timeline_segment_visual_kind(TrackKind::Video, Some(&image)), TimelineSegmentVisualKind::Image);
    let sticker = Material { kind: MaterialKind::Sticker, ..image };
    assert_eq!(timeline_segment_visual_kind(TrackKind::Sticker, Some(&sticker)), TimelineSegmentVisualKind::Sticker);
    assert_eq!(timeline_segment_visual_kind(TrackKind::Filter, None), TimelineSegmentVisualKind::Filter);
}

#[test]
fn keyframe_property_labels_and_names() {
    assert_eq!(format_keyframe_property(KeyframeProperty::TextLetterSpacing), "字间距");
    assert_eq!(format_keyframe_property(KeyframeProperty::FilterParameterUnsupported), "滤镜参数");
    assert_eq!(keyframe_property_name(KeyframeProperty::VisualOpacity), "VisualOpacity");
    assert_eq!(keyframe_property_name(KeyframeProperty::Volume), format!("{:?}", KeyframeProperty::Volume));
}

#[test]
fn nearest_keyframe_picks_the_closest_and_the_first_on_a_tie() {
    let segment = segment_with(
        vec![
            keyframe(KeyframeProperty::Volume, 100),
            keyframe(KeyframeProperty::VisualOpacity, 480),
            keyframe(KeyframeProperty::Volume, 700),
            keyframe(KeyframeProperty::Volume, 300),
        ],
        None,
    );
    assert_eq!(nearest_keyframe_time(&segment, KeyframeProperty::Volume, 480), Ok(300));
    assert_eq!(nearest_keyframe_time(&segment, KeyframeProperty::Volume, 500), Ok(700));
    assert_eq!(nearest_keyframe_time(&segment, KeyframeProperty::Volume, 200), Ok(100));
    assert_eq!(
        nearest_keyframe_time(&segment, KeyframeProperty::TextColor, 0),
        Err("删除关键帧失败：当前属性 TextColor 没有关键帧".to_owned())
    );
}

#[test]
fn keyframe_values_come_from_the_segment() {
    let plain = segment_with(Vec::new(), None);
    assert!(matches!(keyframe_value_for_segment(&plain, KeyframeProperty::VisualPositionX), Ok(KeyframeValue::Int { value: -120 })));
    assert!(matches!(keyframe_value_for_segment(&plain, KeyframeProperty::VisualOpacity), Ok(KeyframeValue::Uint { value: 750 })));
    assert!(matches!(keyframe_value_for_segment(&plain, KeyframeProperty::Volume), Ok(KeyframeValue::Uint { value: 800 })));
    assert_eq!(
        keyframe_value_for_segment(&plain, KeyframeProperty::TextFontSize).unwrap_err(),
        "当前片段没有可用于 TextFontSize 的文字参数"
    );
    assert_eq!(
        keyframe_value_for_segment(&plain, KeyframeProperty::StickerScaleX).unwrap_err(),
        "当前阶段暂不支持该参数动画"
    );
    let with_text = segment_with(Vec::new(), Some(text()));
    match keyframe_value_for_segment(&with_text, KeyframeProperty::TextColor) {
        Ok(KeyframeValue::Color { value }) => assert_eq!(value, "#ff0000"),
        other => panic!("unexpected {:?}", other),
    }
    assert!(matches!(keyframe_value_for_segment(&with_text, KeyframeProperty::TextLayoutHeight), Ok(KeyframeValue::Uint { value: 880 })));
    assert_eq!(text_for_keyframe(&with_text, KeyframeProperty::TextColor).unwrap().content, "标题");
}

#[test]
fn stroke_patches_enable_disable_restyle_and_check_the_width() {
    let current = Some(TextStroke { color: "#112233".to_owned(), width: 4 });
    assert_eq!(apply_text_stroke_patch(current.clone(), Some(false), None, None), Ok(None));
    assert_eq!(apply_text_stroke_patch(current.clone(), None, None, None), Ok(current.clone()));
    assert_eq!(
        apply_text_stroke_patch(current.clone(), None, None, Some(6)),
        Ok(Some(TextStroke { color: "#112233".to_owned(), width: 6 }))
    );
    assert_eq!(
        apply_text_stroke_patch(None, Some(true), None, None),
        Ok(Some(TextStroke { color: "#000000".to_owned(), width: 2 }))
    );
    assert_eq!(
        apply_text_stroke_patch(None, Some(true), Some("#abcdef".to_owned()), Some(121)),
        Err("描边宽度必须在 1 到 120 之间".to_owned())
    );
}

#[test]
fn shadow_and_background_patches() {
    let current = Some(TextShadow { color: "#101010".to_owned(), offset_x: -3, offset_y: 5, blur: 7 });
    assert_eq!(apply_text_shadow_patch(current.clone(), Some(false), None), None);
    assert_eq!(apply_text_shadow_patch(current.clone(), None, None), current.clone());
    assert_eq!(
        apply_text_shadow_patch(current.clone(), None, Some("#ffffff".to_owned())),
        Some(TextShadow { color: "#ffffff".to_owned(), offset_x: -3, offset_y: 5, blur: 7 })
    );
    assert_eq!(
        apply_text_shadow_patch(None, Some(true), None),
        Some(TextShadow { color: "#222222".to_owned(), offset_x: 2, offset_y: 2, blur: 4 })
    );
    assert_eq!(apply_text_background_patch(None, Some(true), None), Some(TextBackground { color: "#000000".to_owned() }));
    assert_eq!(
        apply_text_background_patch(Some(TextBackground { color: "#333333".to_owned() }), Some(true), None),
        Some(TextBackground { color: "#333333".to_owned() })
    );
    assert_eq!(apply_text_background_patch(None, None, None), None);
    assert_eq!(
        apply_text_background_patch(None, None, Some("#444444".to_owned())),
        Some(TextBackground { color: "#444444".to_owned() })
    );
}

#[test]
fn subtitle_defaults_sit_in_the_lower_part_of_the_canvas() {
    assert_eq!(default_subtitle_text_box(), TextBox { width_millis: 800, height_millis: 180 });
    assert_eq!(
        default_subtitle_layout_region(),
        TextLayoutRegion { x_millis: 100, y_millis: 720, width_millis: 800, height_millis: 180 }
    );
}

#[test]
fn keyframe_markers_sit_along_their_segment() {
    let mut eased = keyframe(KeyframeProperty::VisualOpacity, 250_000);
    eased.easing = KeyframeEasing::EaseIn;
    let segment = segment_with(
        vec![keyframe(KeyframeProperty::VisualRotation, 0), eased, keyframe(KeyframeProperty::Volume, 5_000_000)],
        None,
    );
    let markers = timeline_keyframe_markers(&segment, "视频 1");
    assert_eq!(markers.len(), 3);
    assert_eq!(markers[0].marker_key, "VisualRotation-0");
    assert_eq!(markers[0].position_per_mille, 0);
    assert_eq!(markers[1].marker_key, "VisualOpacity-250000");
    assert_eq!(markers[1].position_per_mille, 250);
    assert_eq!(markers[1].title, "不透明度关键帧 00:00:00.250 · 缓入");
    assert_eq!(markers[1].aria_label, "视频 1 不透明度关键帧 00:00:00.250");
    assert_eq!(markers[2].position_per_mille, 1_000);
    assert_eq!(markers[2].at, 5_000_000);

    let mut empty = segment_with(vec![keyframe(KeyframeProperty::Volume, 10)], None);
    empty.target_timerange = TargetTimerange::new(0, 0);
    assert_eq!(timeline_keyframe_markers(&empty, "a")[0].position_per_mille, 1_000);
}
