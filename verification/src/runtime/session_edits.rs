//! Edits a project session applies to the draft's segments (text style
//! patches, keyframe values) and the labels its timeline rows carry.
use vstd::prelude::*;

use crate::engine::keyframes::{Keyframe, KeyframeProperty, KeyframeValue};
use crate::engine::model::{
    Material, MaterialKind, Segment, TextBackground, TextBox, TextLayoutRegion, TextSegment, TextShadow,
    TextStroke, Track, TrackKind,
};
use crate::runtime::timeline_view::{checked_u32, range_message};
use crate::text::{append_str, contains_string, decimal, lit, strings_view};

verus! {

// ---------------------------------------------------------------------------
// Labels
// ---------------------------------------------------------------------------

/// Display name of a track kind.
pub open spec fn track_kind_label(kind: TrackKind) -> Seq<char> {
    match kind {
        TrackKind::Video => "视频"@,
        TrackKind::Audio => "音频"@,
        TrackKind::Text => "文字"@,
        TrackKind::Sticker => "贴纸"@,
        TrackKind::Filter => "滤镜"@,
    }
}

/// The display name of a track kind.
pub fn format_track_kind(kind: TrackKind) -> (r: &'static str)
    ensures
        r@ == track_kind_label(kind),
{
    match kind {
        TrackKind::Video => "视频",
        TrackKind::Audio => "音频",
        TrackKind::Text => "文字",
        TrackKind::Sticker => "贴纸",
        TrackKind::Filter => "滤镜",
    }
}

/// The symbol shown at the head of a track row.
pub fn timeline_track_symbol(kind: TrackKind) -> (r: &'static str)
    ensures
        r@ == match kind {
            TrackKind::Video => "▣"@,
            TrackKind::Audio => "♪"@,
            TrackKind::Text => "T"@,
            TrackKind::Sticker => "◇"@,
            TrackKind::Filter => "◐"@,
        },
{
    match kind {
        TrackKind::Video => "▣",
        TrackKind::Audio => "♪",
        TrackKind::Text => "T",
        TrackKind::Sticker => "◇",
        TrackKind::Filter => "◐",
    }
}

/// Style class of a track kind.
pub open spec fn track_class(kind: TrackKind) -> Seq<char> {
    match kind {
        TrackKind::Video => "video"@,
        TrackKind::Audio => "audio"@,
        TrackKind::Text => "text"@,
        TrackKind::Sticker => "sticker"@,
        TrackKind::Filter => "filter"@,
    }
}

/// The style class of a track kind.
pub fn track_kind_class(kind: TrackKind) -> (r: &'static str)
    ensures
        r@ == track_class(kind),
{
    match kind {
        TrackKind::Video => "video",
        TrackKind::Audio => "audio",
        TrackKind::Text => "text",
        TrackKind::Sticker => "sticker",
        TrackKind::Filter => "filter",
    }
}

/// The style classes of a track row: its kind, whether it is hidden and
/// whether it is selected.
pub open spec fn row_class_text(track: Track, selected_track_ids: Seq<Seq<char>>) -> Seq<char> {
    "track-row "@ + track_class(track.kind) + (if !track.visible { " hidden"@ } else { Seq::empty() })
        + (if selected_track_ids.contains(track.track_id@) { " selected-track"@ } else { Seq::empty() })
}

/// The class attribute of a timeline track row.
pub fn timeline_track_row_class_name(track: &Track, selected_track_ids: &Vec<String>) -> (r: String)
    ensures
        r@ == row_class_text(*track, strings_view(selected_track_ids@)),
{
    let mut r = lit("track-row ");
    append_str(&mut r, track_kind_class(track.kind));
    if !track.visible {
        append_str(&mut r, " hidden");
    }
    if contains_string(selected_track_ids, &track.track_id) {
        append_str(&mut r, " selected-track");
    }
    r
}

/// How a segment is drawn on the timeline.
#[derive(Debug, Clone, Copy, PartialEq, Eq, Structural)]
pub enum TimelineSegmentVisualKind {
    Video,
    Image,
    Audio,
    Text,
    Sticker,
    Filter,
}

/// By its material's kind when that is video, image, audio or text, else
/// by its track's kind.
pub open spec fn segment_visual_kind(track_kind: TrackKind, material_kind: Option<MaterialKind>) -> TimelineSegmentVisualKind {
    match material_kind {
        Some(MaterialKind::Video) => TimelineSegmentVisualKind::Video,
        Some(MaterialKind::Image) => TimelineSegmentVisualKind::Image,
        Some(MaterialKind::Audio) => TimelineSegmentVisualKind::Audio,
        Some(MaterialKind::Text) => TimelineSegmentVisualKind::Text,
        _ => match track_kind {
            TrackKind::Video => TimelineSegmentVisualKind::Video,
            TrackKind::Audio => TimelineSegmentVisualKind::Audio,
            TrackKind::Text => TimelineSegmentVisualKind::Text,
            TrackKind::Sticker => TimelineSegmentVisualKind::Sticker,
            TrackKind::Filter => TimelineSegmentVisualKind::Filter,
        },
    }
}

/// How a segment on a track of `track_kind` using `material` is drawn.
pub fn timeline_segment_visual_kind(track_kind: TrackKind, material: Option<&Material>) -> (r: TimelineSegmentVisualKind)
    ensures
        r == segment_visual_kind(track_kind, match material { Some(m) => Some(m.kind), None => None }),
{
    let material_kind = match material {
        Some(m) => Some(m.kind),
        None => None,
    };
    match material_kind {
        Some(MaterialKind::Video) => TimelineSegmentVisualKind::Video,
        Some(MaterialKind::Image) => TimelineSegmentVisualKind::Image,
        Some(MaterialKind::Audio) => TimelineSegmentVisualKind::Audio,
        Some(MaterialKind::Text) => TimelineSegmentVisualKind::Text,
        _ => match track_kind {
            TrackKind::Video => TimelineSegmentVisualKind::Video,
            TrackKind::Audio => TimelineSegmentVisualKind::Audio,
            TrackKind::Text => TimelineSegmentVisualKind::Text,
            TrackKind::Sticker => TimelineSegmentVisualKind::Sticker,
            TrackKind::Filter => TimelineSegmentVisualKind::Filter,
        },
    }
}

/// Display name of an animatable property.
pub open spec fn property_label(property: KeyframeProperty) -> Seq<char> {
    match property {
        KeyframeProperty::VisualPositionX => "位置 X"@,
        KeyframeProperty::VisualPositionY => "位置 Y"@,
        KeyframeProperty::VisualScaleX => "缩放 X"@,
        KeyframeProperty::VisualScaleY => "缩放 Y"@,
        KeyframeProperty::VisualRotation => "旋转"@,
        KeyframeProperty::VisualOpacity => "不透明度"@,
        KeyframeProperty::TextFontSize => "字号"@,
        KeyframeProperty::TextColor => "颜色"@,
        KeyframeProperty::TextLineHeight => "行高"@,
        KeyframeProperty::TextLetterSpacing => "字间距"@,
        KeyframeProperty::TextLayoutX => "布局 X"@,
        KeyframeProperty::TextLayoutY => "布局 Y"@,
        KeyframeProperty::TextLayoutWidth => "布局宽"@,
        KeyframeProperty::TextLayoutHeight => "布局高"@,
        KeyframeProperty::Volume => "音量"@,
        KeyframeProperty::StickerPositionX => "贴纸位置 X"@,
        KeyframeProperty::StickerPositionY => "贴纸位置 Y"@,
        KeyframeProperty::StickerScaleX => "贴纸缩放 X"@,
        KeyframeProperty::StickerScaleY => "贴纸缩放 Y"@,
        KeyframeProperty::FilterParameterUnsupported => "滤镜参数"@,
    }
}

/// Display name of an animatable property.
pub fn format_keyframe_property(property: KeyframeProperty) -> (r: &'static str)
    ensures
        r@ == property_label(property),
{
    match property {
        KeyframeProperty::VisualPositionX => "位置 X",
        KeyframeProperty::VisualPositionY => "位置 Y",
        KeyframeProperty::VisualScaleX => "缩放 X",
        KeyframeProperty::VisualScaleY => "缩放 Y",
        KeyframeProperty::VisualRotation => "旋转",
        KeyframeProperty::VisualOpacity => "不透明度",
        KeyframeProperty::TextFontSize => "字号",
        KeyframeProperty::TextColor => "颜色",
        KeyframeProperty::TextLineHeight => "行高",
        KeyframeProperty::TextLetterSpacing => "字间距",
        KeyframeProperty::TextLayoutX => "布局 X",
        KeyframeProperty::TextLayoutY => "布局 Y",
        KeyframeProperty::TextLayoutWidth => "布局宽",
        KeyframeProperty::TextLayoutHeight => "布局高",
        KeyframeProperty::Volume => "音量",
        KeyframeProperty::StickerPositionX => "贴纸位置 X",
        KeyframeProperty::StickerPositionY => "贴纸位置 Y",
        KeyframeProperty::StickerScaleX => "贴纸缩放 X",
        KeyframeProperty::StickerScaleY => "贴纸缩放 Y",
        KeyframeProperty::FilterParameterUnsupported => "滤镜参数",
    }
}

/// The identifier of a property as messages spell it.
pub open spec fn property_name(property: KeyframeProperty) -> Seq<char> {
    match property {
        KeyframeProperty::VisualPositionX => "VisualPositionX"@,
        KeyframeProperty::VisualPositionY => "VisualPositionY"@,
        KeyframeProperty::VisualScaleX => "VisualScaleX"@,
        KeyframeProperty::VisualScaleY => "VisualScaleY"@,
        KeyframeProperty::VisualRotation => "VisualRotation"@,
        KeyframeProperty::VisualOpacity => "VisualOpacity"@,
        KeyframeProperty::TextFontSize => "TextFontSize"@,
        KeyframeProperty::TextColor => "TextColor"@,
        KeyframeProperty::TextLineHeight => "TextLineHeight"@,
        KeyframeProperty::TextLetterSpacing => "TextLetterSpacing"@,
        KeyframeProperty::TextLayoutX => "TextLayoutX"@,
        KeyframeProperty::TextLayoutY => "TextLayoutY"@,
        KeyframeProperty::TextLayoutWidth => "TextLayoutWidth"@,
        KeyframeProperty::TextLayoutHeight => "TextLayoutHeight"@,
        KeyframeProperty::Volume => "Volume"@,
        KeyframeProperty::StickerPositionX => "StickerPositionX"@,
        KeyframeProperty::StickerPositionY => "StickerPositionY"@,
        KeyframeProperty::StickerScaleX => "StickerScaleX"@,
        KeyframeProperty::StickerScaleY => "StickerScaleY"@,
        KeyframeProperty::FilterParameterUnsupported => "FilterParameterUnsupported"@,
    }
}

/// The identifier of a property, for messages.
pub fn keyframe_property_name(property: KeyframeProperty) -> (r: &'static str)
    ensures
        r@ == property_name(property),
{
    match property {
        KeyframeProperty::VisualPositionX => "VisualPositionX",
        KeyframeProperty::VisualPositionY => "VisualPositionY",
        KeyframeProperty::VisualScaleX => "VisualScaleX",
        KeyframeProperty::VisualScaleY => "VisualScaleY",
        KeyframeProperty::VisualRotation => "VisualRotation",
        KeyframeProperty::VisualOpacity => "VisualOpacity",
        KeyframeProperty::TextFontSize => "TextFontSize",
        KeyframeProperty::TextColor => "TextColor",
        KeyframeProperty::TextLineHeight => "TextLineHeight",
        KeyframeProperty::TextLetterSpacing => "TextLetterSpacing",
        KeyframeProperty::TextLayoutX => "TextLayoutX",
        KeyframeProperty::TextLayoutY => "TextLayoutY",
        KeyframeProperty::TextLayoutWidth => "TextLayoutWidth",
        KeyframeProperty::TextLayoutHeight => "TextLayoutHeight",
        KeyframeProperty::Volume => "Volume",
        KeyframeProperty::StickerPositionX => "StickerPositionX",
        KeyframeProperty::StickerPositionY => "StickerPositionY",
        KeyframeProperty::StickerScaleX => "StickerScaleX",
        KeyframeProperty::StickerScaleY => "StickerScaleY",
        KeyframeProperty::FilterParameterUnsupported => "FilterParameterUnsupported",
    }
}

// ---------------------------------------------------------------------------
// Keyframes of the selected segment
// ---------------------------------------------------------------------------

/// Distance between two times.
pub open spec fn time_distance(a: u64, b: u64) -> int {
    if a >= b { a - b } else { b - a }
}

/// Index of the first keyframe of `property` among the first `n` that is
/// nearest to `at`, if any.
pub open spec fn nearest_index(kfs: Seq<Keyframe>, property: KeyframeProperty, at: u64, n: int) -> Option<int>
    decreases n,
{
    if n <= 0 {
        None
    } else {
        let k = n - 1;
        match nearest_index(kfs, property, at, k) {
            None => if kfs[k].property == property { Some(k) } else { None },
            Some(b) => if kfs[k].property == property && time_distance(kfs[k].at, at) < time_distance(kfs[b].at, at) {
                Some(k)
            } else {
                Some(b)
            },
        }
    }
}

proof fn lemma_nearest_index_bound(kfs: Seq<Keyframe>, property: KeyframeProperty, at: u64, n: int)
    ensures
        nearest_index(kfs, property, at, n) matches Some(b) ==> 0 <= b < n && kfs[b].property == property,
    decreases n,
{
    if n > 0 {
        lemma_nearest_index_bound(kfs, property, at, n - 1);
    }
}

/// The nearest keyframe is a keyframe of the property; none of that
/// property is nearer, and every earlier one is farther; there is none
/// exactly when no keyframe has the property.
pub proof fn law_nearest_keyframe_is_nearest(kfs: Seq<Keyframe>, property: KeyframeProperty, at: u64, n: int)
    requires
        0 <= n <= kfs.len(),
    ensures
        match nearest_index(kfs, property, at, n) {
            Some(b) => {
                &&& 0 <= b < n
                &&& kfs[b].property == property
                &&& forall|k: int| 0 <= k < n && (#[trigger] kfs[k]).property == property
                    ==> time_distance(kfs[b].at, at) <= time_distance(kfs[k].at, at)
                &&& forall|k: int| 0 <= k < b && (#[trigger] kfs[k]).property == property
                    ==> time_distance(kfs[b].at, at) < time_distance(kfs[k].at, at)
            },
            None => forall|k: int| 0 <= k < n ==> (#[trigger] kfs[k]).property != property,
        },
    decreases n,
{
    if n > 0 {
        law_nearest_keyframe_is_nearest(kfs, property, at, n - 1);
    }
}

/// The time of the keyframe of `property` nearest to segment time
/// `relative_at` (the first one on a tie), or why there is none.
pub fn nearest_keyframe_time(segment: &Segment, property: KeyframeProperty, relative_at: u64) -> (r: Result<u64, String>)
    ensures
        match nearest_index(segment.keyframes@, property, relative_at, segment.keyframes@.len() as int) {
            Some(b) => r == Ok::<u64, String>(segment.keyframes@[b].at),
            None => r matches Err(m) && m@ == "删除关键帧失败：当前属性 "@ + property_name(property) + " 没有关键帧"@,
        },
{
    let ghost kfs = segment.keyframes@;
    let mut best: Option<usize> = None;
    let mut i: usize = 0;
    while i < segment.keyframes.len()
        invariant
            kfs == segment.keyframes@,
            i <= kfs.len(),
            match nearest_index(kfs, property, relative_at, i as int) {
                Some(b) => best == Some(b as usize),
                None => best is None,
            },
        decreases kfs.len() - i,
    {
        proof {
            lemma_nearest_index_bound(kfs, property, relative_at, i as int);
        }
        let keyframe = &segment.keyframes[i];
        if keyframe.property == property {
            match best {
                None => {
                    best = Some(i);
                },
                Some(b) => {
                    let current = &segment.keyframes[b];
                    let d_new: u64 = if keyframe.at >= relative_at { keyframe.at - relative_at } else { relative_at - keyframe.at };
                    let d_best: u64 = if current.at >= relative_at { current.at - relative_at } else { relative_at - current.at };
                    if d_new < d_best {
                        best = Some(i);
                    }
                },
            }
        }
        i = i + 1;
    }
    proof {
        lemma_nearest_index_bound(kfs, property, relative_at, kfs.len() as int);
    }
    match best {
        Some(b) => Ok(segment.keyframes[b].at),
        None => {
            let mut m = lit("删除关键帧失败：当前属性 ");
            append_str(&mut m, keyframe_property_name(property));
            append_str(&mut m, " 没有关键帧");
            Err(m)
        },
    }
}

/// The message for a text property of a segment without text.
pub open spec fn missing_text_message(property: KeyframeProperty) -> Seq<char> {
    "当前片段没有可用于 "@ + property_name(property) + " 的文字参数"@
}

/// The text of a segment whose text property is being animated.
pub fn text_for_keyframe(segment: &Segment, property: KeyframeProperty) -> (r: Result<&TextSegment, String>)
    ensures
        match r {
            Ok(t) => segment.text == Some(*t),
            Err(m) => segment.text is None && m@ == missing_text_message(property),
        },
{
    match &segment.text {
        Some(text) => Ok(text),
        None => {
            let mut m = lit("当前片段没有可用于 ");
            append_str(&mut m, keyframe_property_name(property));
            append_str(&mut m, " 的文字参数");
            Err(m)
        },
    }
}

/// Whether a property belongs to a segment's text.
pub open spec fn is_text_property(property: KeyframeProperty) -> bool {
    match property {
        KeyframeProperty::TextFontSize | KeyframeProperty::TextColor | KeyframeProperty::TextLineHeight
        | KeyframeProperty::TextLetterSpacing | KeyframeProperty::TextLayoutX | KeyframeProperty::TextLayoutY
        | KeyframeProperty::TextLayoutWidth | KeyframeProperty::TextLayoutHeight => true,
        _ => false,
    }
}

/// Whether keyframes of a property cannot be set yet.
pub open spec fn is_unanimatable_property(property: KeyframeProperty) -> bool {
    match property {
        KeyframeProperty::StickerPositionX | KeyframeProperty::StickerPositionY | KeyframeProperty::StickerScaleX
        | KeyframeProperty::StickerScaleY | KeyframeProperty::FilterParameterUnsupported => true,
        _ => false,
    }
}

/// Why the current value of a property cannot be read, if it cannot.
pub open spec fn keyframe_value_problem(segment: Segment, property: KeyframeProperty) -> Option<Seq<char>> {
    if is_unanimatable_property(property) {
        Some("当前阶段暂不支持该参数动画"@)
    } else if is_text_property(property) && segment.text is None {
        Some(missing_text_message(property))
    } else {
        None
    }
}

/// `v` is the current value of `property` on `segment`.
pub open spec fn is_current_value(v: KeyframeValue, segment: Segment, property: KeyframeProperty) -> bool {
    let tr = segment.visual.transform;
    match property {
        KeyframeProperty::VisualPositionX => v == KeyframeValue::Int { value: tr.position_x },
        KeyframeProperty::VisualPositionY => v == KeyframeValue::Int { value: tr.position_y },
        KeyframeProperty::VisualScaleX => v == KeyframeValue::Uint { value: tr.scale_x_millis },
        KeyframeProperty::VisualScaleY => v == KeyframeValue::Uint { value: tr.scale_y_millis },
        KeyframeProperty::VisualRotation => v == KeyframeValue::Int { value: tr.rotation_degrees },
        KeyframeProperty::VisualOpacity => v == KeyframeValue::Uint { value: tr.opacity_millis },
        KeyframeProperty::Volume => v == KeyframeValue::Uint { value: segment.volume_level_millis },
        KeyframeProperty::TextFontSize => segment.text matches Some(t) && v == KeyframeValue::Uint { value: t.style.font_size },
        KeyframeProperty::TextColor => segment.text matches Some(t) && v matches KeyframeValue::Color { value } && value@ == t.style.color@,
        KeyframeProperty::TextLineHeight => segment.text matches Some(t) && v == KeyframeValue::Uint { value: t.style.line_height_millis },
        KeyframeProperty::TextLetterSpacing => segment.text matches Some(t) && v == KeyframeValue::Uint { value: t.style.letter_spacing_millis },
        KeyframeProperty::TextLayoutX => segment.text matches Some(t) && v == KeyframeValue::Uint { value: t.layout_region.x_millis },
        KeyframeProperty::TextLayoutY => segment.text matches Some(t) && v == KeyframeValue::Uint { value: t.layout_region.y_millis },
        KeyframeProperty::TextLayoutWidth => segment.text matches Some(t) && v == KeyframeValue::Uint { value: t.layout_region.width_millis },
        KeyframeProperty::TextLayoutHeight => segment.text matches Some(t) && v == KeyframeValue::Uint { value: t.layout_region.height_millis },
        _ => false,
    }
}

/// The value a new keyframe of `property` takes: the segment's current one.
pub fn keyframe_value_for_segment(segment: &Segment, property: KeyframeProperty) -> (r: Result<KeyframeValue, String>)
    ensures
        match r {
            Ok(v) => keyframe_value_problem(*segment, property) is None && is_current_value(v, *segment, property),
            Err(m) => keyframe_value_problem(*segment, property) == Some(m@),
        },
{
    let tr = &segment.visual.transform;
    match property {
        KeyframeProperty::VisualPositionX => Ok(KeyframeValue::Int { value: tr.position_x }),
        KeyframeProperty::VisualPositionY => Ok(KeyframeValue::Int { value: tr.position_y }),
        KeyframeProperty::VisualScaleX => Ok(KeyframeValue::Uint { value: tr.scale_x_millis }),
        KeyframeProperty::VisualScaleY => Ok(KeyframeValue::Uint { value: tr.scale_y_millis }),
        KeyframeProperty::VisualRotation => Ok(KeyframeValue::Int { value: tr.rotation_degrees }),
        KeyframeProperty::VisualOpacity => Ok(KeyframeValue::Uint { value: tr.opacity_millis }),
        KeyframeProperty::Volume => Ok(KeyframeValue::Uint { value: segment.volume_level_millis }),
        KeyframeProperty::StickerPositionX | KeyframeProperty::StickerPositionY | KeyframeProperty::StickerScaleX
        | KeyframeProperty::StickerScaleY | KeyframeProperty::FilterParameterUnsupported => {
            Err(lit("当前阶段暂不支持该参数动画"))
        },
        _ => {
            let text = match text_for_keyframe(segment, property) {
                Ok(t) => t,
                Err(m) => return Err(m),
            };
            match property {
                KeyframeProperty::TextFontSize => Ok(KeyframeValue::Uint { value: text.style.font_size }),
                KeyframeProperty::TextColor => Ok(KeyframeValue::Color { value: text.style.color.clone() }),
                KeyframeProperty::TextLineHeight => Ok(KeyframeValue::Uint { value: text.style.line_height_millis }),
                KeyframeProperty::TextLetterSpacing => Ok(KeyframeValue::Uint { value: text.style.letter_spacing_millis }),
                KeyframeProperty::TextLayoutX => Ok(KeyframeValue::Uint { value: text.layout_region.x_millis }),
                KeyframeProperty::TextLayoutY => Ok(KeyframeValue::Uint { value: text.layout_region.y_millis }),
                KeyframeProperty::TextLayoutWidth => Ok(KeyframeValue::Uint { value: text.layout_region.width_millis }),
                _ => Ok(KeyframeValue::Uint { value: text.layout_region.height_millis }),
            }
        },
    }
}

// ---------------------------------------------------------------------------
// Text style patches
// ---------------------------------------------------------------------------

/// The text box new subtitles get.
pub fn default_subtitle_text_box() -> (r: TextBox)
    ensures
        r == (TextBox { width_millis: 800, height_millis: 180 }),
{
    TextBox { width_millis: 800, height_millis: 180 }
}

/// The layout region new subtitles get: the lower part of the canvas.
pub fn default_subtitle_layout_region() -> (r: TextLayoutRegion)
    ensures
        r == (TextLayoutRegion { x_millis: 100, y_millis: 720, width_millis: 800, height_millis: 180 }),
{
    TextLayoutRegion { x_millis: 100, y_millis: 720, width_millis: 800, height_millis: 180 }
}

/// A patched colour: the given one, else the current one, else `default`.
pub open spec fn patched_color(given: Option<String>, current: Option<Seq<char>>, default: Seq<char>) -> Seq<char> {
    match given {
        Some(c) => c@,
        None => match current {
            Some(c) => c,
            None => default,
        },
    }
}

fn pick_color(given: Option<String>, current: Option<&String>, default: &str) -> (r: String)
    ensures
        r@ == patched_color(given, match current { Some(c) => Some(c@), None => None }, default@),
{
    match given {
        Some(c) => c,
        None => match current {
            Some(c) => c.clone(),
            None => lit(default),
        },
    }
}

/// The stroke width a stroke patch asks for.
pub open spec fn patched_stroke_width(current: Option<TextStroke>, width: Option<u32>) -> u32 {
    match width {
        Some(w) => w,
        None => match current {
            Some(s) => s.width,
            None => 2,
        },
    }
}

/// The outcome of a stroke patch: switched off, switched on or restyled
/// (colour and width from the patch, else the current stroke, else black
/// and 2, the width checked against 1..=120), or left alone.
pub open spec fn stroke_patch_result(
    current: Option<TextStroke>,
    enabled: Option<bool>,
    color: Option<String>,
    width: Option<u32>,
) -> Result<Option<(Seq<char>, u32)>, Seq<char>> {
    let col = patched_color(color, match current { Some(s) => Some(s.color@), None => None }, "#000000"@);
    let w = patched_stroke_width(current, width);
    let restyled = if 1 <= w <= 120 {
        Ok(Some((col, w)))
    } else {
        Err(range_message("描边宽度"@, decimal(1), decimal(120)))
    };
    match enabled {
        Some(false) => Ok(None),
        Some(true) => restyled,
        None => if color is None && width is None {
            Ok(match current { Some(s) => Some((s.color@, s.width)), None => None })
        } else {
            restyled
        },
    }
}

/// Applies a stroke patch to a text style's stroke.
pub fn apply_text_stroke_patch(
    current: Option<TextStroke>,
    enabled: Option<bool>,
    color: Option<String>,
    width: Option<u32>,
) -> (r: Result<Option<TextStroke>, String>)
    ensures
        match stroke_patch_result(current, enabled, color, width) {
            Ok(expected) => r matches Ok(s) && match s {
                Some(v) => expected == Some((v.color@, v.width)),
                None => expected is None,
            },
            Err(m) => r matches Err(e) && e@ == m,
        },
        enabled is None && color is None && width is None ==> r == Ok::<Option<TextStroke>, String>(current),
{
    let keep = enabled.is_none() && color.is_none() && width.is_none();
    match enabled {
        Some(false) => return Ok(None),
        _ => {},
    }
    if keep {
        return Ok(current);
    }
    let w: u32 = match width {
        Some(w) => w,
        None => match &current {
            Some(s) => s.width,
            None => 2,
        },
    };
    let col = pick_color(color, match &current { Some(s) => Some(&s.color), None => None }, "#000000");
    match checked_u32("描边宽度", w, 1, 120) {
        Ok(w) => Ok(Some(TextStroke { color: col, width: w })),
        Err(m) => Err(m),
    }
}

/// The outcome of a shadow patch: switched off; switched on (colour from
/// the patch, else the current shadow, else `#222222`; offsets and blur
/// kept, else 2, 2 and 4); recoloured when only a colour is given; else
/// left alone.
pub open spec fn shadow_patch_result(
    current: Option<TextShadow>,
    enabled: Option<bool>,
    color: Option<String>,
) -> Option<(Seq<char>, i32, i32, u32)> {
    let offsets = match current {
        Some(s) => (s.offset_x, s.offset_y, s.blur),
        None => (2i32, 2i32, 4u32),
    };
    let col = patched_color(color, match current { Some(s) => Some(s.color@), None => None }, "#222222"@);
    match enabled {
        Some(false) => None,
        Some(true) => Some((col, offsets.0, offsets.1, offsets.2)),
        None => match color {
            Some(c) => Some((c@, offsets.0, offsets.1, offsets.2)),
            None => match current {
                Some(s) => Some((s.color@, s.offset_x, s.offset_y, s.blur)),
                None => None,
            },
        },
    }
}

/// Applies a shadow patch to a text style's shadow.
pub fn apply_text_shadow_patch(current: Option<TextShadow>, enabled: Option<bool>, color: Option<String>) -> (r: Option<TextShadow>)
    ensures
        match r {
            Some(v) => shadow_patch_result(current, enabled, color) == Some((v.color@, v.offset_x, v.offset_y, v.blur)),
            None => shadow_patch_result(current, enabled, color) is None,
        },
        enabled is None && color is None ==> r == current,
{
    let (offset_x, offset_y, blur): (i32, i32, u32) = match &current {
        Some(s) => (s.offset_x, s.offset_y, s.blur),
        None => (2, 2, 4),
    };
    match enabled {
        Some(false) => None,
        Some(true) => {
            let col = pick_color(color, match &current { Some(s) => Some(&s.color), None => None }, "#222222");
            Some(TextShadow { color: col, offset_x, offset_y, blur })
        },
        None => match color {
            Some(c) => Some(TextShadow { color: c, offset_x, offset_y, blur }),
            None => current,
        },
    }
}

/// The outcome of a background patch: switched off; switched on (colour
/// from the patch, else the current one, else black); recoloured when only
/// a colour is given; else left alone.
pub open spec fn background_patch_result(current: Option<TextBackground>, enabled: Option<bool>, color: Option<String>) -> Option<Seq<char>> {
    match enabled {
        Some(false) => None,
        Some(true) => Some(patched_color(color, match current { Some(b) => Some(b.color@), None => None }, "#000000"@)),
        None => match color {
            Some(c) => Some(c@),
            None => match current {
                Some(b) => Some(b.color@),
                None => None,
            },
        },
    }
}

/// Applies a background patch to a text style's background.
pub fn apply_text_background_patch(current: Option<TextBackground>, enabled: Option<bool>, color: Option<String>) -> (r: Option<TextBackground>)
    ensures
        match r {
            Some(v) => background_patch_result(current, enabled, color) == Some(v.color@),
            None => background_patch_result(current, enabled, color) is None,
        },
        enabled is None && color is None ==> r == current,
{
    match enabled {
        Some(false) => None,
        Some(true) => {
            let col = pick_color(color, match &current { Some(b) => Some(&b.color), None => None }, "#000000");
            Some(TextBackground { color: col })
        },
        None => match color {
            Some(c) => Some(TextBackground { color: c }),
            None => current,
        },
    }
}

} // verus!
