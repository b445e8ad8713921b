use editor_core::compiler::filters::{SegmentCrop, SegmentFitMode};
use editor_core::engine::keyframes::{Keyframe, KeyframeEasing, KeyframeInterpolation, KeyframeProperty, KeyframeValue};
use editor_core::engine::model::{
    AudioRetimePolicy, BackgroundFilling, CanvasBackground, CanvasConfig, Draft, Material, MaterialKind,
    MaterialStatus, RationalFrameRate, RetimeMode, Segment, SegmentRetiming, SegmentVisual, SourceTimerange,
    SpeedRatio, TargetTimerange, Track, TrackKind, VisualTransform,
};
use editor_core::runtime::visual_patch::{
    apply_segment_visual_patch, SegmentBackgroundFillingPatchKind, SegmentVisualPatch,
};
use editor_core::runtime::selection::{
    keyframe_edit_for_selected_segment, keyframe_for_selected_segment, next_project_interaction_id,
    selected_segment, selected_segment_id, selected_segment_location, selected_track_id,
    selection_for_kind_target_track, selection_for_material_target_track, TimelineSelection,
};

fn segment(id: &str, start: u64, duration: u64, keyframes: Vec<Keyframe>) -> Segment {
    Segment {
        segment_id: id.to_owned(),
        material_id: "video-material".to_owned(),
        source_timerange: SourceTimerange::new(0, duration),
        target_timerange: TargetTimerange::new(start, duration),
        retiming: SegmentRetiming { mode: RetimeMode::Constant { speed: SpeedRatio::one() }, audio_policy: AudioRetimePolicy::FollowVideoSpeed },
        keyframes,
        text: None,
        volume_level_millis: 1000,
        visual: SegmentVisual {
            visible: true,
            transform: VisualTransform {
                position_x: 0,
                position_y: 0,
                scale_x_millis: 1000,
                scale_y_millis: 1000,
                rotation_degrees: 0,
                opacity_millis: 600,
                crop: SegmentCrop { left_millis: 0, right_millis: 0, top_millis: 0, bottom_millis: 0 },
            },
            fit_mode: SegmentFitMode::Fit,
            background_filling: BackgroundFilling::NoFilling,
            blend_reference: None,
            mask_reference: None,
        },
    }
}

fn track(id: &str, kind: TrackKind, name: &str, segments: Vec<Segment>) -> Track {
    Track { track_id: id.to_owned(), kind, name: name.to_owned(), muted: false, visible: true, segments }
}

fn material(id: &str, kind: MaterialKind) -> Material {
    Material {
        material_id: id.to_owned(),
        kind,
        uri: format!("file://{id}"),
        display_name: id.to_owned(),
        status: MaterialStatus::Available,
        duration: Some(10_000_000),
        width: None,
        height: None,
        has_video: true,
        has_audio: true,
    }
}

fn draft() -> Draft {
    let opacity_keyframe = Keyframe {
        property: KeyframeProperty::VisualOpacity,
        at: 200_000,
        value: KeyframeValue::Uint { value: 300 },
        interpolation: KeyframeInterpolation::Hold,
        easing: KeyframeEasing::EaseOut,
    };
    Draft {
        draft_id: "draft-selection".to_owned(),
        name: String::new(),
        canvas_config: CanvasConfig {
            frame_rate: RationalFrameRate::new(30, 1),
            width: 1920,
            height: 1080,
            background: CanvasBackground::Black,
        },
        tracks: vec![
            track("video-track", TrackKind::Video, "视频轨道 1", vec![segment("seg-a", 1_000_000, 1_000_000, vec![opacity_keyframe])]),
            track("audio-track", TrackKind::Audio, "音频轨道 1", vec![segment("seg-b", 0, 500_000, Vec::new())]),
        ],
        materials: vec![material("video-material", MaterialKind::Video), material("audio-material", MaterialKind::Audio)],
    }
}

fn selection(segments: &[&str], tracks: &[&str]) -> TimelineSelection {
    TimelineSelection {
        segment_ids: segments.iter().map(|s| s.to_string()).collect(),
        track_ids: tracks.iter().map(|s| s.to_string()).collect(),
    }
}

#[test]
fn selected_track_and_segment_resolve_against_the_draft() {
    let d = draft();
    assert_eq!(selected_track_id(&d, &selection(&[], &["audio-track"]), "删除轨道"), Ok("audio-track".to_owned()));
    assert_eq!(selected_track_id(&d, &selection(&[], &[]), "删除轨道"), Err("删除轨道失败：请先选择一个轨道".to_owned()));
    assert_eq!(selected_track_id(&d, &selection(&[], &["gone"]), "删除轨道"), Err("删除轨道失败：选中的轨道不存在".to_owned()));
    assert_eq!(selected_segment(&d, &selection(&["seg-b"], &[]), "移动片段").unwrap().target_timerange.duration, 500_000);
    assert_eq!(selected_segment(&d, &selection(&[], &[]), "移动片段").unwrap_err(), "移动片段失败：请先选择一个片段");
    assert_eq!(selected_segment_id(&d, &selection(&["gone"], &[]), "分割片段"), Err("分割片段失败：选中的片段不存在".to_owned()));
    assert_eq!(
        selected_segment_location(&d, &selection(&["seg-b", "seg-a"], &[]), "移动片段"),
        Ok(("seg-b".to_owned(), "audio-track".to_owned()))
    );
}

#[test]
fn target_tracks_must_exist_and_match_the_kind_or_material() {
    let d = draft();
    let current = selection(&["seg-a"], &["video-track"]);
    let kept = selection_for_kind_target_track(&d, &current, None, TrackKind::Text, "添加文字").unwrap();
    assert_eq!(kept.segment_ids, vec!["seg-a".to_owned()]);
    let chosen = selection_for_kind_target_track(&d, &current, Some("video-track"), TrackKind::Video, "添加文字").unwrap();
    assert!(chosen.segment_ids.is_empty());
    assert_eq!(chosen.track_ids, vec!["video-track".to_owned()]);
    assert_eq!(
        selection_for_kind_target_track(&d, &current, Some("audio-track"), TrackKind::Text, "添加文字").unwrap_err(),
        "添加文字失败：目标轨道 音频轨道 1 不是 Text 轨道"
    );
    assert_eq!(
        selection_for_kind_target_track(&d, &current, Some("gone"), TrackKind::Text, "添加文字").unwrap_err(),
        "添加文字失败：目标轨道不存在"
    );
    assert_eq!(
        selection_for_material_target_track(&d, &current, Some("audio-track"), "audio-material", "添加片段").unwrap().track_ids,
        vec!["audio-track".to_owned()]
    );
    assert_eq!(
        selection_for_material_target_track(&d, &current, Some("audio-track"), "video-material", "添加片段").unwrap_err(),
        "添加片段失败：素材 Video 不能添加到 Audio 轨道"
    );
    assert_eq!(
        selection_for_material_target_track(&d, &current, Some("video-track"), "nothing", "添加片段").unwrap_err(),
        "添加片段失败：素材不存在 nothing"
    );
}

#[test]
fn new_keyframes_take_the_current_value_at_segment_time() {
    let d = draft();
    let (segment_id, keyframe) = keyframe_for_selected_segment(
        &d,
        &selection(&["seg-a"], &[]),
        KeyframeProperty::VisualOpacity,
        1_250_000,
        KeyframeInterpolation::Linear,
        KeyframeEasing::EaseIn,
    )
    .unwrap();
    assert_eq!(segment_id, "seg-a");
    assert_eq!(keyframe.at, 250_000);
    assert!(matches!(keyframe.value, KeyframeValue::Uint { value: 600 }));
    assert_eq!(keyframe.easing, KeyframeEasing::EaseIn);
    let (_, late) = keyframe_for_selected_segment(
        &d,
        &selection(&["seg-a"], &[]),
        KeyframeProperty::Volume,
        9_000_000,
        KeyframeInterpolation::Linear,
        KeyframeEasing::NoEasing,
    )
    .unwrap();
    assert_eq!(late.at, 1_000_000);
}

#[test]
fn keyframe_edits_inherit_from_the_moved_keyframe_and_check_times() {
    let d = draft();
    let sel = selection(&["seg-a"], &[]);
    let (_, from, moved) = keyframe_edit_for_selected_segment(
        &d, &sel, KeyframeProperty::VisualOpacity, 400_000, Some(200_000), None, None, None,
    )
    .unwrap();
    assert_eq!(from, Some(200_000));
    assert_eq!(moved.at, 400_000);
    assert!(matches!(moved.value, KeyframeValue::Uint { value: 300 }));
    assert_eq!(moved.interpolation, KeyframeInterpolation::Hold);
    assert_eq!(moved.easing, KeyframeEasing::EaseOut);

    let (_, _, fresh) =
        keyframe_edit_for_selected_segment(&d, &sel, KeyframeProperty::VisualOpacity, 100_000, None, None, None, None).unwrap();
    assert!(matches!(fresh.value, KeyframeValue::Uint { value: 600 }));
    assert_eq!(fresh.interpolation, KeyframeInterpolation::Linear);
    assert_eq!(fresh.easing, KeyframeEasing::NoEasing);

    assert_eq!(
        keyframe_edit_for_selected_segment(&d, &sel, KeyframeProperty::VisualOpacity, 1_000_001, None, None, None, None).unwrap_err(),
        "编辑关键帧失败：关键帧时间 1000001 超出片段时长 1000000"
    );
    assert_eq!(
        keyframe_edit_for_selected_segment(&d, &sel, KeyframeProperty::VisualOpacity, 0, Some(2_000_000), None, None, None).unwrap_err(),
        "编辑关键帧失败：源关键帧时间 2000000 超出片段时长 1000000"
    );
}

#[test]
fn interaction_ids_count_up_per_session() {
    assert_eq!(next_project_interaction_id("projectSession-1", 0), ("projectSession-1-interaction-1".to_owned(), 1));
    assert_eq!(next_project_interaction_id("s", u64::MAX), (format!("s-interaction-{}", u64::MAX), u64::MAX));
}

fn empty_patch() -> SegmentVisualPatch {
    SegmentVisualPatch {
        visible: None,
        position_x: None,
        position_y: None,
        position_delta_x: None,
        position_delta_y: None,
        scale_x_millis: None,
        scale_y_millis: None,
        rotation_degrees: None,
        rotation_delta_degrees: None,
        opacity_millis: None,
        crop_left_millis: None,
        crop_right_millis: None,
        crop_top_millis: None,
        crop_bottom_millis: None,
        fit_mode: None,
        background_kind: None,
        background_color: None,
    }
}

#[test]
fn visual_patch_sets_checks_and_clamps_the_selected_segments_picture() {
    let draft = draft();
    let sel = selection(&["seg-a"], &[]);
    let patch = SegmentVisualPatch {
        visible: Some(false),
        position_x: Some(900),
        position_delta_x: Some(500),
        position_delta_y: Some(-20),
        scale_x_millis: Some(1500),
        rotation_degrees: Some(350),
        rotation_delta_degrees: Some(30),
        opacity_millis: Some(250),
        crop_left_millis: Some(200),
        crop_right_millis: Some(300),
        fit_mode: Some(SegmentFitMode::Fill),
        background_kind: Some(SegmentBackgroundFillingPatchKind::SolidColor),
        ..empty_patch()
    };
    let visual = apply_segment_visual_patch(&draft, &sel, &patch).expect("patch in range applies");
    assert!(!visual.visible);
    assert_eq!(visual.transform.position_x, 1000);
    assert_eq!(visual.transform.position_y, -20);
    assert_eq!(visual.transform.scale_x_millis, 1500);
    assert_eq!(visual.transform.scale_y_millis, 1000);
    assert_eq!(visual.transform.rotation_degrees, 20);
    assert_eq!(visual.transform.opacity_millis, 250);
    assert_eq!(visual.transform.crop.left_millis, 200);
    assert_eq!(visual.transform.crop.right_millis, 300);
    assert_eq!(visual.fit_mode, SegmentFitMode::Fill);
    assert_eq!(visual.background_filling, BackgroundFilling::SolidColor { color: "#000000".to_owned() });

    let recolor = SegmentVisualPatch { background_color: Some("#ff0000".to_owned()), ..empty_patch() };
    let unchanged = apply_segment_visual_patch(&draft, &sel, &recolor).unwrap();
    assert_eq!(unchanged.background_filling, BackgroundFilling::NoFilling);

    let image = SegmentVisualPatch { background_kind: Some(SegmentBackgroundFillingPatchKind::Image), ..empty_patch() };
    assert_eq!(
        apply_segment_visual_patch(&draft, &sel, &image).unwrap().background_filling,
        BackgroundFilling::Image { material_id: None }
    );
}

#[test]
fn visual_patch_reports_the_first_value_out_of_range() {
    let draft = draft();
    let sel = selection(&["seg-a"], &[]);
    let too_far = SegmentVisualPatch { position_y: Some(1001), scale_x_millis: Some(0), ..empty_patch() };
    assert_eq!(apply_segment_visual_patch(&draft, &sel, &too_far).unwrap_err(), "位置 Y必须在 -1000 到 1000 之间");
    let thin = SegmentVisualPatch { scale_y_millis: Some(3001), ..empty_patch() };
    assert_eq!(apply_segment_visual_patch(&draft, &sel, &thin).unwrap_err(), "缩放 Y必须在 1 到 3000 之间");
    let cropped = SegmentVisualPatch { crop_top_millis: Some(600), crop_bottom_millis: Some(400), ..empty_patch() };
    assert_eq!(
        apply_segment_visual_patch(&draft, &sel, &cropped).unwrap_err(),
        "编辑画面失败：左右或上下裁剪总和必须小于 1000"
    );
    let nothing = selection(&[], &[]);
    assert_eq!(apply_segment_visual_patch(&draft, &nothing, &empty_patch()).unwrap_err(), "编辑画面失败：请先选择一个片段");
}
