use editor_core::engine::keyframes::KeyframeEasing;
use editor_core::engine::model::{
    AudioRetimePolicy, CanvasBackground, CanvasConfig, Draft, MaterialKind, RationalFrameRate, RetimeMode,
    SegmentRetiming, SpeedCurvePoint, SpeedRatio, TargetTimerange, TrackKind,
};
use editor_core::order::{apply_order, stable_order, SortKey};
use editor_core::runtime::timeline_view::{
    build_ruler_ticks, checked_i32, default_draft_name, default_template_import_id, draft_name_from_stem, checked_u32, clamp_i32, format_keyframe_easing, format_segment_retime_label,
    format_timeline_time, frame_duration_us, is_segment_speed_adjusted, localize_audio_retime_policy,
    localize_mask_label, normalize_rotation_degrees, relative_keyframe_time, sanitize_template_import_id,
    sequence_duration, track_accepts_material_kind, trim_target_timerange, TrimSegmentDirection,
};
use editor_core::text::{i64_to_decimal, str_lt, u64_to_decimal, u64_to_padded_decimal};

fn retiming(mode: RetimeMode) -> SegmentRetiming {
    SegmentRetiming { mode, audio_policy: AudioRetimePolicy::FollowVideoSpeed }
}

#[test]
fn mask_labels_and_easings_are_localized() {
    assert_eq!(localize_mask_label("rectangle"), "矩形蒙版");
    assert_eq!(localize_mask_label("ellipse"), "椭圆蒙版");
    assert_eq!(localize_mask_label("star"), "star");
    assert_eq!(format_keyframe_easing(KeyframeEasing::NoEasing), "无");
    assert_eq!(format_keyframe_easing(KeyframeEasing::EaseInOut), "缓入缓出");
    assert_eq!(localize_audio_retime_policy(AudioRetimePolicy::PreservePitch), "保持音调暂不支持");
}

#[test]
fn ruler_ticks_split_the_duration_in_six() {
    assert_eq!(build_ruler_ticks(6_000_000), vec![0, 1_000_000, 2_000_000, 3_000_000, 4_000_000, 5_000_000, 6_000_000]);
    assert_eq!(build_ruler_ticks(3), vec![0, 1, 2, 3, 3, 3, 3]);
    assert_eq!(build_ruler_ticks(0), vec![0, 0, 0, 0, 0, 0, 0]);
}

#[test]
fn timeline_times_are_zero_padded() {
    assert_eq!(format_timeline_time(0), "00:00:00.000");
    assert_eq!(format_timeline_time(3_723_456_789), "01:02:03.456");
    assert_eq!(format_timeline_time(360_000_000_000), "100:00:00.000");
}

#[test]
fn checked_values_report_their_range() {
    assert_eq!(checked_u32("音量", 500, 0, 1000), Ok(500));
    assert_eq!(checked_u32("音量", 1500, 0, 1000), Err("音量必须在 0 到 1000 之间".to_owned()));
    assert_eq!(checked_i32("位置", -2000, -1000, 1000), Err("位置必须在 -1000 到 1000 之间".to_owned()));
    assert_eq!(clamp_i32(5, 0, 3), 3);
    assert_eq!(clamp_i32(-5, 0, 3), 0);
}

#[test]
fn rotations_are_brought_into_a_half_turn_either_way() {
    assert_eq!(normalize_rotation_degrees(90), 90);
    assert_eq!(normalize_rotation_degrees(270), -90);
    assert_eq!(normalize_rotation_degrees(-540), -180);
    assert_eq!(normalize_rotation_degrees(725), 5);
    for value in [-1000, -181, 181, 359, 360, 100_000, i32::MIN, i32::MAX] {
        let r = normalize_rotation_degrees(value);
        assert!((-180..=180).contains(&r));
        assert_eq!((r as i64 - value as i64).rem_euclid(360), 0);
    }
}

#[test]
fn template_import_ids_are_sanitized_and_trimmed() {
    assert_eq!(sanitize_template_import_id("  My Template (v2)!  "), "My-Template--v2");
    assert_eq!(sanitize_template_import_id("---"), "");
    assert_eq!(sanitize_template_import_id("剪映模板_01"), "_01");
}

#[test]
fn trimming_keeps_segments_inside_their_range() {
    let target = TargetTimerange::new(1_000, 1_000);
    assert_eq!(trim_target_timerange(&target, TrimSegmentDirection::Left, 1_500), Ok(TargetTimerange::new(1_500, 500)));
    assert_eq!(trim_target_timerange(&target, TrimSegmentDirection::Left, 5_000), Ok(TargetTimerange::new(1_999, 1)));
    assert_eq!(trim_target_timerange(&target, TrimSegmentDirection::Right, 1_200), Ok(TargetTimerange::new(1_000, 200)));
    assert_eq!(trim_target_timerange(&target, TrimSegmentDirection::Right, 0), Ok(TargetTimerange::new(1_000, 1)));
    assert!(trim_target_timerange(&TargetTimerange::new(1_000, 0), TrimSegmentDirection::Left, 1_000).is_err());
}

#[test]
fn keyframe_times_frames_and_sequence_length() {
    let target = TargetTimerange::new(1_000, 500);
    assert_eq!(relative_keyframe_time(&target, 1_200), 200);
    assert_eq!(relative_keyframe_time(&target, 10), 0);
    assert_eq!(relative_keyframe_time(&target, 9_999), 500);
    assert_eq!(frame_duration_us(&RationalFrameRate::new(30, 1)), 33_333);
    assert_eq!(frame_duration_us(&RationalFrameRate::new(30_000, 1_001)), 33_366);
    assert_eq!(frame_duration_us(&RationalFrameRate::new(0, 0)), 1_000_000);
    let empty = Draft {
        draft_id: "d".to_owned(),
        name: String::new(),
        canvas_config: CanvasConfig {
            frame_rate: RationalFrameRate::new(30, 1),
            width: 1920,
            height: 1080,
            background: CanvasBackground::Black,
        },
        tracks: Vec::new(),
        materials: Vec::new(),
    };
    assert_eq!(sequence_duration(&empty), 0);
}

#[test]
fn speed_labels_and_adjustment() {
    let normal = retiming(RetimeMode::Constant { speed: SpeedRatio::one() });
    let faster = retiming(RetimeMode::Constant { speed: SpeedRatio { numerator: 3, denominator: 2 } });
    let third = retiming(RetimeMode::Constant { speed: SpeedRatio { numerator: 1, denominator: 3 } });
    let curve = retiming(RetimeMode::SpeedCurve {
        points: vec![SpeedCurvePoint { target_time: 0, speed: SpeedRatio::one() }],
    });
    assert!(!is_segment_speed_adjusted(&normal));
    assert!(is_segment_speed_adjusted(&faster));
    assert!(is_segment_speed_adjusted(&curve));
    assert_eq!(format_segment_retime_label(&normal), "1.0x");
    assert_eq!(format_segment_retime_label(&faster), "1.5x");
    assert_eq!(format_segment_retime_label(&third), "0.3x");
    assert_eq!(format_segment_retime_label(&curve), "曲线变速");
}

#[test]
fn tracks_accept_matching_material_kinds() {
    assert!(track_accepts_material_kind(TrackKind::Video, MaterialKind::Image));
    assert!(!track_accepts_material_kind(TrackKind::Video, MaterialKind::Audio));
    assert!(track_accepts_material_kind(TrackKind::Audio, MaterialKind::Audio));
    assert!(track_accepts_material_kind(TrackKind::Text, MaterialKind::Text));
    assert!(!track_accepts_material_kind(TrackKind::Sticker, MaterialKind::Video));
}

#[test]
fn decimal_text_and_character_order() {
    assert_eq!(u64_to_decimal(0), "0");
    assert_eq!(u64_to_decimal(u64::MAX), "18446744073709551615");
    assert_eq!(u64_to_padded_decimal(7, 3), "007");
    assert_eq!(u64_to_padded_decimal(12_345, 3), "12345");
    assert_eq!(i64_to_decimal(-42), "-42");
    assert_eq!(i64_to_decimal(i64::MIN), "-9223372036854775808");
    assert!(str_lt("abc", "abd"));
    assert!(str_lt("ab", "abc"));
    assert!(!str_lt("abc", "abc"));
}

#[test]
fn stable_order_sorts_by_rank_then_text_and_keeps_ties_in_place() {
    let key = |rank: u64, first: &str, second: &str| SortKey { rank, first: first.to_owned(), second: second.to_owned() };
    let keys = vec![key(2, "b", ""), key(1, "z", ""), key(2, "a", ""), key(1, "z", ""), key(0, "", "")];
    let order = stable_order(&keys);
    assert_eq!(order, vec![4, 1, 3, 2, 0]);
    let items = vec!["first", "second", "third", "fourth", "fifth"];
    assert_eq!(apply_order(items, &order), vec!["fifth", "second", "fourth", "third", "first"]);
}

#[test]
fn draft_names_and_template_ids_come_from_the_file_stem() {
    assert_eq!(default_draft_name("/projects/My Draft.veproj"), "My Draft");
    assert_eq!(default_draft_name("/projects/   .veproj"), "未命名项目");
    assert_eq!(default_draft_name("/"), "未命名项目");
    assert_eq!(draft_name_from_stem(None), "未命名项目");
    assert_eq!(default_template_import_id("/imports/Summer Trip (2024).zip"), "Summer-Trip--2024");
    assert_eq!(default_template_import_id("/imports/模板.zip"), "offline-template-import");
    assert_eq!(default_template_import_id(""), "offline-template-import");
}
