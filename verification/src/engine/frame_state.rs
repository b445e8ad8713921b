//! Frame sampling on the timeline: frame times from a rational frame rate,
//! which segments cover a timeline position, and segment-relative time.
use vstd::prelude::*;
use vstd::arithmetic::div_mod::*;
use vstd::arithmetic::mul::*;

use crate::engine::error::{EngineError, EngineErrorKind};
use crate::engine::keyframes::{
    color_from, keyframe_order, resolve_color_keyframe, resolve_int_keyframe, resolve_uint_keyframe,
    spec_int_keyframe, spec_uint_keyframe, Keyframe, KeyframeProperty,
};
use crate::engine::model::{
    same_retiming, MaterialKind, RationalFrameRate, SegmentRetiming, SegmentVisual, TargetTimerange,
    TextLayoutRegion, TextSegment, TextStyle, TrackKind, VisualTransform,
};
use crate::engine::normalize::{MaterialRenderableState, NormalizedDraft, NormalizedSegment, NormalizedTrack};
use crate::engine::text_layout::{
    overlay_layout_matches, overlay_problem, resolve_text_overlay, ResolvedTextOverlay,
};
use crate::engine::time_mapping::{
    agrees, audio_retime_diagnostic, source_position_result, spec_is_effectively_1x,
    AudioRetimeDiagnostic, AudioRetimeDiagnosticKind, SegmentTimeMap,
};
use crate::engine::model::AudioRetimePolicy;
use crate::order::{apply_order, is_stable_order, key_view, lemma_stable_order_positions, stable_order, KeyView, SortKey};
use crate::text::lit;

verus! {

/// Start time in microseconds of frame `i` (rounded down).
#[verifier::opaque]
pub open spec fn frame_us(i: int, fr: RationalFrameRate) -> int {
    i * (fr.denominator as int) * 1_000_000 / (fr.numerator as int)
}

pub open spec fn frame_rate_valid(fr: RationalFrameRate) -> bool {
    fr.numerator != 0 && fr.denominator != 0
}

fn validate_frame_rate(frame_rate: &RationalFrameRate) -> (r: Result<(), EngineError>)
    ensures
        r is Ok <==> frame_rate_valid(*frame_rate),
        r matches Err(e) ==> e.kind == EngineErrorKind::InvalidFrameRate
            && e.message@ == "rational frame rate numerator and denominator must be greater than zero"@,
{
    if frame_rate.numerator == 0 || frame_rate.denominator == 0 {
        return Err(EngineError::new(
            EngineErrorKind::InvalidFrameRate,
            lit("rational frame rate numerator and denominator must be greater than zero"),
        ));
    }
    Ok(())
}

/// Start time of frame `frame_index` at `frame_rate`, in microseconds.
pub fn frame_index_to_microseconds(frame_index: u64, frame_rate: &RationalFrameRate) -> (r: Result<u64, EngineError>)
    ensures
        match r {
            Ok(v) => frame_rate_valid(*frame_rate) && v as int == frame_us(frame_index as int, *frame_rate),
            Err(e) => {
                ||| !frame_rate_valid(*frame_rate) && e.kind == EngineErrorKind::InvalidFrameRate
                ||| frame_rate_valid(*frame_rate) && frame_us(frame_index as int, *frame_rate) > u64::MAX
                    && e.kind == EngineErrorKind::TimerangeOverflow
            },
        },
{
    match validate_frame_rate(frame_rate) {
        Ok(()) => {},
        Err(e) => return Err(e),
    }
    let numerator = frame_rate.numerator as u128;
    let denominator = frame_rate.denominator as u128;
    proof {
        lemma_mul_upper_bound(frame_index as int, u64::MAX as int, denominator as int, u32::MAX as int);
        lemma_mul_upper_bound((frame_index as int) * (denominator as int), (u64::MAX as int) * (u32::MAX as int), 1_000_000, 1_000_000);
        lemma_mul_nonnegative(frame_index as int, denominator as int);
    }
    let value = (frame_index as u128) * denominator * 1_000_000u128 / numerator;
    proof { reveal(frame_us); }
    if value > u64::MAX as u128 {
        return Err(EngineError::new(
            EngineErrorKind::TimerangeOverflow,
            lit("frame index to microsecond conversion exceeded u64 microseconds"),
        ));
    }
    Ok(value as u64)
}

proof fn lemma_frame_us_monotone(i: int, j: int, fr: RationalFrameRate)
    requires
        0 <= i <= j,
        frame_rate_valid(fr),
    ensures
        0 <= frame_us(i, fr) <= frame_us(j, fr),
{
    reveal(frame_us);
    lemma_mul_inequality(i, j, fr.denominator as int);
    lemma_mul_inequality(i * (fr.denominator as int), j * (fr.denominator as int), 1_000_000);
    lemma_mul_nonnegative(i, fr.denominator as int);
    lemma_mul_nonnegative(i * (fr.denominator as int), 1_000_000);
    lemma_div_pos_is_pos(i * (fr.denominator as int) * 1_000_000, fr.numerator as int);
    lemma_div_is_ordered(i * (fr.denominator as int) * 1_000_000, j * (fr.denominator as int) * 1_000_000, fr.numerator as int);
}

/// Whether a segment covering `[start, end)` is active at `at`.
pub fn covers_timeline_position(target_start: u64, target_end: u64, at: u64) -> (r: bool)
    ensures
        r == (target_start <= at && at < target_end),
{
    target_start <= at && at < target_end
}

/// Time since the segment's target start.
pub fn segment_relative_time_at(target_timerange: &TargetTimerange, at: u64) -> (r: Result<u64, EngineError>)
    ensures
        match r {
            Ok(v) => at >= target_timerange.start && v == at - target_timerange.start,
            Err(e) => at < target_timerange.start && e.kind == EngineErrorKind::TimerangeOverflow
                && e.message@ == "frame position precedes segment targetTimerange start"@,
        },
{
    if at < target_timerange.start {
        return Err(EngineError::new(
            EngineErrorKind::TimerangeOverflow,
            lit("frame position precedes segment targetTimerange start"),
        ));
    }
    Ok(at - target_timerange.start)
}

/// Segment volume at segment-relative time `at`: the volume keyframes
/// animate the segment's base volume.
pub fn resolve_segment_volume(keyframes: &Vec<Keyframe>, volume_level_millis: u32, at: u64) -> (r: u32)
    ensures
        r == spec_uint_keyframe(keyframes@, keyframe_order(keyframes@, KeyframeProperty::Volume), volume_level_millis, at),
{
    resolve_uint_keyframe(keyframes, KeyframeProperty::Volume, volume_level_millis, at)
}

/// Frame start times never decrease with the frame index.
pub proof fn law_frame_times_monotone(i: int, j: int, fr: RationalFrameRate)
    requires
        0 <= i <= j,
        frame_rate_valid(fr),
    ensures
        0 <= frame_us(i, fr) <= frame_us(j, fr),
{
    lemma_frame_us_monotone(i, j, fr);
}

/// A visual segment drawn in a frame.
#[derive(Debug, Clone)]
pub struct FrameVisualLayer {
    pub track_id: String,
    pub segment_id: String,
    pub material_id: String,
    pub material_kind: MaterialKind,
    pub stack_index: u32,
    pub source_position: u64,
    pub target_timerange: TargetTimerange,
    pub retiming: SegmentRetiming,
    pub visual: SegmentVisual,
}

/// An audio segment heard in a frame.
#[derive(Debug, Clone)]
pub struct FrameAudioSegment {
    pub track_id: String,
    pub segment_id: String,
    pub material_id: String,
    pub source_position: u64,
    pub target_timerange: TargetTimerange,
    pub retiming: SegmentRetiming,
    pub audio_retime_diagnostic: Option<AudioRetimeDiagnostic>,
    pub volume_level_millis: u32,
}

/// Everything shown and heard at one timeline position.
#[derive(Debug, Clone)]
pub struct FrameState {
    pub at: u64,
    pub visual_layers: Vec<FrameVisualLayer>,
    pub audio_segments: Vec<FrameAudioSegment>,
    pub text_overlays: Vec<ResolvedTextOverlay>,
}

/// A stretch of the timeline sampled at a frame rate.
#[derive(Debug, Clone, Copy)]
pub struct RenderRange {
    pub target_timerange: TargetTimerange,
    pub frame_rate: RationalFrameRate,
}

/// The frames of a render range.
#[derive(Debug, Clone)]
pub struct RenderRangeState {
    pub target_timerange: TargetTimerange,
    pub frame_rate: RationalFrameRate,
    pub frames: Vec<FrameState>,
}

/// The value of an unsigned property of a segment at segment time `t`.
pub open spec fn uint_at(seg: NormalizedSegment, property: KeyframeProperty, base: u32, t: u64) -> u32 {
    spec_uint_keyframe(seg.keyframes@, keyframe_order(seg.keyframes@, property), base, t)
}

/// The value of a signed property of a segment at segment time `t`.
pub open spec fn int_at(seg: NormalizedSegment, property: KeyframeProperty, base: i32, t: u64) -> i32 {
    spec_int_keyframe(seg.keyframes@, keyframe_order(seg.keyframes@, property), base, t)
}

/// The segment's visual intent with its animated transform at time `t`.
pub open spec fn resolved_visual(seg: NormalizedSegment, t: u64) -> SegmentVisual {
    let base = seg.visual.transform;
    SegmentVisual {
        transform: VisualTransform {
            position_x: int_at(seg, KeyframeProperty::VisualPositionX, base.position_x, t),
            position_y: int_at(seg, KeyframeProperty::VisualPositionY, base.position_y, t),
            scale_x_millis: uint_at(seg, KeyframeProperty::VisualScaleX, base.scale_x_millis, t),
            scale_y_millis: uint_at(seg, KeyframeProperty::VisualScaleY, base.scale_y_millis, t),
            rotation_degrees: int_at(seg, KeyframeProperty::VisualRotation, base.rotation_degrees, t),
            opacity_millis: uint_at(seg, KeyframeProperty::VisualOpacity, base.opacity_millis, t),
            crop: base.crop,
        },
        ..seg.visual
    }
}

/// A text segment with its animated numeric properties at time `t` (the
/// colour is animated separately).
pub open spec fn numeric_resolved_text(seg: NormalizedSegment, text: TextSegment, t: u64) -> TextSegment {
    TextSegment {
        style: TextStyle {
            font_size: uint_at(seg, KeyframeProperty::TextFontSize, text.style.font_size, t),
            line_height_millis: uint_at(seg, KeyframeProperty::TextLineHeight, text.style.line_height_millis, t),
            letter_spacing_millis: uint_at(seg, KeyframeProperty::TextLetterSpacing, text.style.letter_spacing_millis, t),
            ..text.style
        },
        layout_region: TextLayoutRegion {
            x_millis: uint_at(seg, KeyframeProperty::TextLayoutX, text.layout_region.x_millis, t),
            y_millis: uint_at(seg, KeyframeProperty::TextLayoutY, text.layout_region.y_millis, t),
            width_millis: uint_at(seg, KeyframeProperty::TextLayoutWidth, text.layout_region.width_millis, t),
            height_millis: uint_at(seg, KeyframeProperty::TextLayoutHeight, text.layout_region.height_millis, t),
        },
        ..text
    }
}

/// The animated text colour at time `t`.
pub open spec fn color_at(seg: NormalizedSegment, text: TextSegment, t: u64) -> Seq<char> {
    color_from(seg.keyframes@, keyframe_order(seg.keyframes@, KeyframeProperty::TextColor), 0, text.style.color@, t as int)
}

fn resolve_segment_visual(segment: &NormalizedSegment, at: u64) -> (r: SegmentVisual)
    ensures
        r == resolved_visual(*segment, at),
{
    let mut visual = segment.visual.duplicate();
    let base = segment.visual.transform;
    let kfs = &segment.keyframes;
    visual.transform.position_x = resolve_int_keyframe(kfs, KeyframeProperty::VisualPositionX, base.position_x, at);
    visual.transform.position_y = resolve_int_keyframe(kfs, KeyframeProperty::VisualPositionY, base.position_y, at);
    visual.transform.scale_x_millis = resolve_uint_keyframe(kfs, KeyframeProperty::VisualScaleX, base.scale_x_millis, at);
    visual.transform.scale_y_millis = resolve_uint_keyframe(kfs, KeyframeProperty::VisualScaleY, base.scale_y_millis, at);
    visual.transform.rotation_degrees = resolve_int_keyframe(kfs, KeyframeProperty::VisualRotation, base.rotation_degrees, at);
    visual.transform.opacity_millis = resolve_uint_keyframe(kfs, KeyframeProperty::VisualOpacity, base.opacity_millis, at);
    visual
}

fn resolve_segment_text(segment: &NormalizedSegment, text: &TextSegment, at: u64) -> (r: TextSegment)
    ensures
        r == (TextSegment { style: TextStyle { color: r.style.color, ..numeric_resolved_text(*segment, *text, at).style }, ..numeric_resolved_text(*segment, *text, at) }),
        r.style.color@ == color_at(*segment, *text, at),
{
    let mut resolved = text.duplicate();
    let kfs = &segment.keyframes;
    resolved.style.font_size = resolve_uint_keyframe(kfs, KeyframeProperty::TextFontSize, text.style.font_size, at);
    resolved.style.color = resolve_color_keyframe(kfs, KeyframeProperty::TextColor, text.style.color.as_str(), at);
    resolved.style.line_height_millis = resolve_uint_keyframe(kfs, KeyframeProperty::TextLineHeight, text.style.line_height_millis, at);
    resolved.style.letter_spacing_millis = resolve_uint_keyframe(kfs, KeyframeProperty::TextLetterSpacing, text.style.letter_spacing_millis, at);
    resolved.layout_region.x_millis = resolve_uint_keyframe(kfs, KeyframeProperty::TextLayoutX, text.layout_region.x_millis, at);
    resolved.layout_region.y_millis = resolve_uint_keyframe(kfs, KeyframeProperty::TextLayoutY, text.layout_region.y_millis, at);
    resolved.layout_region.width_millis = resolve_uint_keyframe(kfs, KeyframeProperty::TextLayoutWidth, text.layout_region.width_millis, at);
    resolved.layout_region.height_millis = resolve_uint_keyframe(kfs, KeyframeProperty::TextLayoutHeight, text.layout_region.height_millis, at);
    resolved
}

/// What a segment contributes to the frame at `at`.
#[derive(PartialEq, Eq, Structural)]
pub enum EntryClass {
    Nothing,
    Visual,
    Audio,
    Text,
}

/// The segment is renderable and covers `at`.
pub open spec fn segment_active(seg: NormalizedSegment, at: u64) -> bool {
    seg.renderable == MaterialRenderableState::Renderable && seg.target_timerange.start <= at && at < seg.target_end
}

/// What segment `j` of track `i` contributes at `at`.
pub open spec fn entry_class(ts: Seq<NormalizedTrack>, i: int, j: int, at: u64) -> EntryClass {
    let t = ts[i];
    let seg = t.segments@[j];
    if !segment_active(seg, at) {
        EntryClass::Nothing
    } else {
        match t.kind {
            TrackKind::Audio => EntryClass::Audio,
            TrackKind::Video | TrackKind::Sticker => if seg.visual.visible && t.stack_index is Some {
                EntryClass::Visual
            } else {
                EntryClass::Nothing
            },
            TrackKind::Text => if seg.visual.visible && t.stack_index is Some && seg.text is Some {
                EntryClass::Text
            } else {
                EntryClass::Nothing
            },
            TrackKind::Filter => EntryClass::Nothing,
        }
    }
}

/// Positions (track, segment) of class `c` among the first `j` segments of track `i`.
pub open spec fn track_entries(ts: Seq<NormalizedTrack>, i: int, j: int, at: u64, c: EntryClass) -> Seq<(int, int)>
    decreases j,
{
    if j <= 0 {
        Seq::empty()
    } else if entry_class(ts, i, j - 1, at) == c {
        track_entries(ts, i, j - 1, at, c).push((i, j - 1))
    } else {
        track_entries(ts, i, j - 1, at, c)
    }
}

/// Positions of class `c` in the first `i` tracks, in timeline order.
pub open spec fn entries(ts: Seq<NormalizedTrack>, i: int, at: u64, c: EntryClass) -> Seq<(int, int)>
    decreases i,
{
    if i <= 0 {
        Seq::empty()
    } else {
        entries(ts, i - 1, at, c) + track_entries(ts, i - 1, ts[i - 1].segments@.len() as int, at, c)
    }
}

/// The segment at a position.
pub open spec fn seg_at(ts: Seq<NormalizedTrack>, p: (int, int)) -> NormalizedSegment {
    ts[p.0].segments@[p.1]
}

/// Segment time of an active segment at `at`.
pub open spec fn segment_time(seg: NormalizedSegment, at: u64) -> u64 {
    (at - seg.target_timerange.start) as u64
}

/// Where the segment's source is at `at`.
pub open spec fn source_at(seg: NormalizedSegment, at: u64) -> Result<int, EngineErrorKind> {
    source_position_result(seg.source_timerange, seg.retiming.mode, at - seg.target_timerange.start)
}

/// Why segment `j` of track `i` stops the frame at `at` from resolving.
pub open spec fn entry_problem(nd: NormalizedDraft, i: int, j: int, at: u64) -> Option<EngineErrorKind> {
    let ts = nd.tracks@;
    let seg = ts[i].segments@[j];
    if !segment_active(seg, at) {
        None
    } else if source_at(seg, at) is Err {
        Some(source_at(seg, at)->Err_0)
    } else if entry_class(ts, i, j, at) == EntryClass::Text {
        match nd.profile.text_layout {
            None => Some(EngineErrorKind::MissingTextLayoutProfile),
            Some(layout) => if overlay_problem(numeric_resolved_text(seg, seg.text->0, segment_time(seg, at)), layout,
                nd.profile.canvas_width, nd.profile.canvas_height) is Some {
                Some(EngineErrorKind::InvalidTextLayoutProfile)
            } else {
                None
            },
        }
    } else {
        None
    }
}

/// The first problem among the first `j` segments of track `i`.
pub open spec fn track_frame_problem(nd: NormalizedDraft, i: int, j: int, at: u64) -> Option<EngineErrorKind>
    decreases j,
{
    if j <= 0 {
        None
    } else {
        match track_frame_problem(nd, i, j - 1, at) {
            Some(k) => Some(k),
            None => entry_problem(nd, i, j - 1, at),
        }
    }
}

/// The first problem among the first `i` tracks.
pub open spec fn frame_problem_upto(nd: NormalizedDraft, i: int, at: u64) -> Option<EngineErrorKind>
    decreases i,
{
    if i <= 0 {
        None
    } else {
        match frame_problem_upto(nd, i - 1, at) {
            Some(k) => Some(k),
            None => track_frame_problem(nd, i - 1, nd.tracks@[i - 1].segments@.len() as int, at),
        }
    }
}

/// The first problem that stops the frame at `at` from resolving.
pub open spec fn frame_problem(nd: NormalizedDraft, at: u64) -> Option<EngineErrorKind> {
    frame_problem_upto(nd, nd.tracks@.len() as int, at)
}

/// Sort key of a layer: stack position, track, segment.
pub open spec fn layer_key(ts: Seq<NormalizedTrack>, p: (int, int)) -> KeyView {
    (ts[p.0].stack_index->0 as int, ts[p.0].track_id@, seg_at(ts, p).segment_id@)
}

/// Sort key of an audio segment: track, segment.
pub open spec fn audio_key(ts: Seq<NormalizedTrack>, p: (int, int)) -> KeyView {
    (0, ts[p.0].track_id@, seg_at(ts, p).segment_id@)
}

pub open spec fn layer_keys(ts: Seq<NormalizedTrack>, ps: Seq<(int, int)>) -> Seq<KeyView> {
    ps.map_values(|p: (int, int)| layer_key(ts, p))
}

pub open spec fn audio_keys(ts: Seq<NormalizedTrack>, ps: Seq<(int, int)>) -> Seq<KeyView> {
    ps.map_values(|p: (int, int)| audio_key(ts, p))
}

/// `l` is the visual layer of the segment at `p`.
pub open spec fn visual_matches(l: FrameVisualLayer, ts: Seq<NormalizedTrack>, p: (int, int), at: u64) -> bool {
    let seg = seg_at(ts, p);
    &&& l.track_id@ == ts[p.0].track_id@
    &&& l.segment_id@ == seg.segment_id@
    &&& l.material_id@ == seg.material.material_id@
    &&& l.material_kind == seg.material.kind
    &&& l.stack_index == ts[p.0].stack_index->0
    &&& source_at(seg, at) == Ok::<int, EngineErrorKind>(l.source_position as int)
    &&& l.target_timerange == seg.target_timerange
    &&& same_retiming(l.retiming, seg.retiming)
    &&& l.visual == resolved_visual(seg, segment_time(seg, at))
}

/// `a` is the audio of the segment at `p`.
pub open spec fn audio_matches(a: FrameAudioSegment, ts: Seq<NormalizedTrack>, p: (int, int), at: u64) -> bool {
    let seg = seg_at(ts, p);
    &&& a.track_id@ == ts[p.0].track_id@
    &&& a.segment_id@ == seg.segment_id@
    &&& a.material_id@ == seg.material.material_id@
    &&& source_at(seg, at) == Ok::<int, EngineErrorKind>(a.source_position as int)
    &&& a.target_timerange == seg.target_timerange
    &&& same_retiming(a.retiming, seg.retiming)
    &&& (a.audio_retime_diagnostic is Some <==> (seg.retiming.audio_policy == AudioRetimePolicy::PreservePitch
        && !spec_is_effectively_1x(seg.retiming.mode)))
    &&& (a.audio_retime_diagnostic matches Some(d) ==> d.kind == AudioRetimeDiagnosticKind::UnsupportedPitchPreservation
        && d.message@ == "preserve-pitch audio retiming is not yet supported for non-1x speed"@)
    &&& a.volume_level_millis == uint_at(seg, KeyframeProperty::Volume, seg.volume_level_millis, segment_time(seg, at))
}

/// `o` is the text overlay of the segment at `p`.
pub open spec fn text_matches(o: ResolvedTextOverlay, nd: NormalizedDraft, p: (int, int), at: u64) -> bool {
    let ts = nd.tracks@;
    let seg = seg_at(ts, p);
    let text = seg.text->0;
    let t = segment_time(seg, at);
    &&& source_at(seg, at) is Ok
    &&& overlay_layout_matches(o, ts[p.0].track_id@, seg, numeric_resolved_text(seg, text, t), ts[p.0].stack_index->0,
        source_at(seg, at)->Ok_0 as u64, nd.profile.text_layout->0, nd.profile.canvas_width, nd.profile.canvas_height)
    &&& o.style.color@ == color_at(seg, text, t)
}

/// `out` holds the entries `ps` in the stable order of `keys`, each
/// satisfying `matches`.
pub open spec fn sorted_visuals(out: Seq<FrameVisualLayer>, ts: Seq<NormalizedTrack>, ps: Seq<(int, int)>, at: u64) -> bool {
    exists|order: Seq<int>| #[trigger] is_stable_order(layer_keys(ts, ps), order)
        && out.len() == ps.len()
        && forall|k: int| 0 <= k < out.len() ==> visual_matches(#[trigger] out[k], ts, ps[order[k]], at)
}

pub open spec fn sorted_audio(out: Seq<FrameAudioSegment>, ts: Seq<NormalizedTrack>, ps: Seq<(int, int)>, at: u64) -> bool {
    exists|order: Seq<int>| #[trigger] is_stable_order(audio_keys(ts, ps), order)
        && out.len() == ps.len()
        && forall|k: int| 0 <= k < out.len() ==> audio_matches(#[trigger] out[k], ts, ps[order[k]], at)
}

pub open spec fn sorted_texts(out: Seq<ResolvedTextOverlay>, nd: NormalizedDraft, ps: Seq<(int, int)>, at: u64) -> bool {
    exists|order: Seq<int>| #[trigger] is_stable_order(layer_keys(nd.tracks@, ps), order)
        && out.len() == ps.len()
        && forall|k: int| 0 <= k < out.len() ==> text_matches(#[trigger] out[k], nd, ps[order[k]], at)
}

/// The frame at `at` as specified: every active layer, audio segment and
/// text overlay, each list in its stable order.
pub open spec fn frame_matches(fs: FrameState, nd: NormalizedDraft, at: u64) -> bool {
    let ts = nd.tracks@;
    let n = ts.len() as int;
    &&& fs.at == at
    &&& sorted_visuals(fs.visual_layers@, ts, entries(ts, n, at, EntryClass::Visual), at)
    &&& sorted_audio(fs.audio_segments@, ts, entries(ts, n, at, EntryClass::Audio), at)
    &&& sorted_texts(fs.text_overlays@, nd, entries(ts, n, at, EntryClass::Text), at)
}

proof fn lemma_track_frame_problem_extends(nd: NormalizedDraft, i: int, j: int, at: u64)
    requires
        0 <= i < nd.tracks@.len(),
        0 <= j <= nd.tracks@[i].segments@.len(),
        track_frame_problem(nd, i, j, at) is Some,
    ensures
        track_frame_problem(nd, i, nd.tracks@[i].segments@.len() as int, at) == track_frame_problem(nd, i, j, at),
    decreases nd.tracks@[i].segments@.len() - j,
{
    if j < nd.tracks@[i].segments@.len() {
        assert(track_frame_problem(nd, i, j + 1, at) == track_frame_problem(nd, i, j, at));
        lemma_track_frame_problem_extends(nd, i, j + 1, at);
    }
}

proof fn lemma_frame_problem_extends(nd: NormalizedDraft, i: int, at: u64)
    requires
        0 <= i <= nd.tracks@.len(),
        frame_problem_upto(nd, i, at) is Some,
    ensures
        frame_problem(nd, at) == frame_problem_upto(nd, i, at),
    decreases nd.tracks@.len() - i,
{
    if i < nd.tracks@.len() {
        assert(frame_problem_upto(nd, i + 1, at) == frame_problem_upto(nd, i, at));
        lemma_frame_problem_extends(nd, i + 1, at);
    }
}

/// The collected visual layers match the entries `ps`, with their keys.
pub open spec fn collected_visual(items: Seq<FrameVisualLayer>, keys: Seq<SortKey>, ps: Seq<(int, int)>, ts: Seq<NormalizedTrack>, at: u64) -> bool {
    &&& items.len() == ps.len()
    &&& keys.len() == ps.len()
    &&& forall|q: int| 0 <= q < ps.len() ==> visual_matches(#[trigger] items[q], ts, ps[q], at)
    &&& forall|q: int| 0 <= q < ps.len() ==> key_view(#[trigger] keys[q]) == layer_key(ts, ps[q])
}

/// The collected audio segments match the entries `ps`, with their keys.
pub open spec fn collected_audio(items: Seq<FrameAudioSegment>, keys: Seq<SortKey>, ps: Seq<(int, int)>, ts: Seq<NormalizedTrack>, at: u64) -> bool {
    &&& items.len() == ps.len()
    &&& keys.len() == ps.len()
    &&& forall|q: int| 0 <= q < ps.len() ==> audio_matches(#[trigger] items[q], ts, ps[q], at)
    &&& forall|q: int| 0 <= q < ps.len() ==> key_view(#[trigger] keys[q]) == audio_key(ts, ps[q])
}

/// The collected text overlays match the entries `ps`, with their keys.
pub open spec fn collected_text(items: Seq<ResolvedTextOverlay>, keys: Seq<SortKey>, ps: Seq<(int, int)>, nd: NormalizedDraft, at: u64) -> bool {
    &&& items.len() == ps.len()
    &&& keys.len() == ps.len()
    &&& forall|q: int| 0 <= q < ps.len() ==> text_matches(#[trigger] items[q], nd, ps[q], at)
    &&& forall|q: int| 0 <= q < ps.len() ==> key_view(#[trigger] keys[q]) == layer_key(nd.tracks@, ps[q])
}

/// Items in stable key order: a permutation by a stable order of the keys.
pub open spec fn in_key_order<T>(r: Seq<T>, items: Seq<T>, keys: Seq<SortKey>, order: Seq<int>) -> bool {
    &&& is_stable_order(keys.map_values(|k: SortKey| key_view(k)), order)
    &&& r.len() == items.len()
    &&& forall|k: int| 0 <= k < r.len() ==> #[trigger] r[k] == items[order[k]]
}

fn sort_by_keys<T>(items: Vec<T>, keys: &Vec<SortKey>) -> (r: Vec<T>)
    requires
        items@.len() == keys@.len(),
    ensures
        exists|order: Seq<int>| #[trigger] in_key_order(r@, items@, keys@, order),
{
    let ghost orig = items@;
    let order = stable_order(keys);
    let ghost ov = order@.map_values(|x: usize| x as int);
    proof {
        lemma_stable_order_positions(keys@.map_values(|k: SortKey| key_view(k)), order@);
    }
    let r = apply_order(items, &order);
    proof {
        assert forall|k: int| 0 <= k < r@.len() implies #[trigger] r@[k] == orig[ov[k]] by {
            assert(ov[k] == order@[k] as int);
        }
        assert(in_key_order(r@, orig, keys@, ov));
    }
    r
}

fn source_position_for_segment(segment: &NormalizedSegment, segment_time: u64) -> (r: Result<u64, EngineError>)
    ensures
        agrees(r, source_position_result(segment.source_timerange, segment.retiming.mode, segment_time as int)),
        r matches Err(e) ==> e.segment_id == Some(segment.segment_id) && e.material_id == Some(segment.material.material_id),
{
    match SegmentTimeMap::new(&segment.source_timerange, &segment.retiming).source_at_target(segment_time) {
        Ok(v) => Ok(v),
        Err(e) => Err(e.with_segment_id(segment.segment_id.clone()).with_material_id(segment.material.material_id.clone())),
    }
}

/// Everything shown and heard at timeline position `at`: every renderable
/// segment covering `at` contributes its audio, its visual layer (when
/// visible on a stacked track) or its laid-out text; layers and overlays
/// are ordered by stack, track and segment, audio by track and segment.
pub fn resolve_frame_state(normalized: &NormalizedDraft, at: u64) -> (r: Result<FrameState, EngineError>)
    ensures
        match r {
            Ok(fs) => frame_problem(*normalized, at) is None && frame_matches(fs, *normalized, at),
            Err(e) => frame_problem(*normalized, at) == Some(e.kind),
        },
{
    let ghost nd = *normalized;
    let ghost ts = normalized.tracks@;
    let mut visual_items: Vec<FrameVisualLayer> = Vec::new();
    let mut visual_keys: Vec<SortKey> = Vec::new();
    let mut audio_items: Vec<FrameAudioSegment> = Vec::new();
    let mut audio_keys_v: Vec<SortKey> = Vec::new();
    let mut text_items: Vec<ResolvedTextOverlay> = Vec::new();
    let mut text_keys: Vec<SortKey> = Vec::new();
    let mut i: usize = 0;
    while i < normalized.tracks.len()
        invariant
            nd == *normalized,
            ts == normalized.tracks@,
            i <= ts.len(),
            frame_problem_upto(nd, i as int, at) is None,
            collected_visual(visual_items@, visual_keys@, entries(ts, i as int, at, EntryClass::Visual), ts, at),
            collected_audio(audio_items@, audio_keys_v@, entries(ts, i as int, at, EntryClass::Audio), ts, at),
            collected_text(text_items@, text_keys@, entries(ts, i as int, at, EntryClass::Text), nd, at),
        decreases ts.len() - i,
    {
        let track = &normalized.tracks[i];
        let ghost ve = entries(ts, i as int, at, EntryClass::Visual);
        let ghost ae = entries(ts, i as int, at, EntryClass::Audio);
        let ghost te = entries(ts, i as int, at, EntryClass::Text);
        proof {
            assert(ve + track_entries(ts, i as int, 0, at, EntryClass::Visual) =~= ve);
            assert(ae + track_entries(ts, i as int, 0, at, EntryClass::Audio) =~= ae);
            assert(te + track_entries(ts, i as int, 0, at, EntryClass::Text) =~= te);
        }
        let mut j: usize = 0;
        while j < track.segments.len()
            invariant
                nd == *normalized,
                ts == normalized.tracks@,
                i < ts.len(),
                *track == ts[i as int],
                j <= track.segments@.len(),
                frame_problem_upto(nd, i as int, at) is None,
                track_frame_problem(nd, i as int, j as int, at) is None,
                ve == entries(ts, i as int, at, EntryClass::Visual),
                ae == entries(ts, i as int, at, EntryClass::Audio),
                te == entries(ts, i as int, at, EntryClass::Text),
                collected_visual(visual_items@, visual_keys@, ve + track_entries(ts, i as int, j as int, at, EntryClass::Visual), ts, at),
                collected_audio(audio_items@, audio_keys_v@, ae + track_entries(ts, i as int, j as int, at, EntryClass::Audio), ts, at),
                collected_text(text_items@, text_keys@, te + track_entries(ts, i as int, j as int, at, EntryClass::Text), nd, at),
            decreases track.segments@.len() - j,
        {
            let segment = &track.segments[j];
            let ghost pos = (i as int, j as int);
            proof {
                assert(seg_at(ts, pos) == *segment);
            }
            if segment.renderable != MaterialRenderableState::Renderable
                || !covers_timeline_position(segment.target_timerange.start, segment.target_end, at) {
                proof {
                    assert(entry_class(ts, i as int, j as int, at) == EntryClass::Nothing);
                    assert(track_entries(ts, i as int, j + 1, at, EntryClass::Visual) == track_entries(ts, i as int, j as int, at, EntryClass::Visual));
                    assert(track_entries(ts, i as int, j + 1, at, EntryClass::Audio) == track_entries(ts, i as int, j as int, at, EntryClass::Audio));
                    assert(track_entries(ts, i as int, j + 1, at, EntryClass::Text) == track_entries(ts, i as int, j as int, at, EntryClass::Text));
                }
                j = j + 1;
                continue;
            }
            let segment_time = at - segment.target_timerange.start;
            let source_position = match source_position_for_segment(segment, segment_time) {
                Ok(v) => v,
                Err(e) => {
                    proof {
                        assert(entry_problem(nd, i as int, j as int, at) == Some(e.kind));
                        assert(track_frame_problem(nd, i as int, j + 1, at) == Some(e.kind));
                        lemma_track_frame_problem_extends(nd, i as int, j + 1, at);
                        assert(frame_problem_upto(nd, i + 1, at) == Some(e.kind));
                        lemma_frame_problem_extends(nd, i + 1, at);
                    }
                    return Err(e);
                },
            };
            let ghost cls = entry_class(ts, i as int, j as int, at);
            let ghost vt = track_entries(ts, i as int, j as int, at, EntryClass::Visual);
            let ghost at_ = track_entries(ts, i as int, j as int, at, EntryClass::Audio);
            let ghost tt = track_entries(ts, i as int, j as int, at, EntryClass::Text);
            match track.kind {
                TrackKind::Audio => {
                    let item = FrameAudioSegment {
                        track_id: track.track_id.clone(),
                        segment_id: segment.segment_id.clone(),
                        material_id: segment.material.material_id.clone(),
                        source_position,
                        target_timerange: segment.target_timerange,
                        retiming: segment.retiming.duplicate(),
                        audio_retime_diagnostic: audio_retime_diagnostic(&segment.retiming),
                        volume_level_millis: resolve_segment_volume(&segment.keyframes, segment.volume_level_millis, segment_time),
                    };
                    let ghost old_items = audio_items@;
                    let ghost old_keys = audio_keys_v@;
                    audio_items.push(item);
                    audio_keys_v.push(SortKey { rank: 0, first: track.track_id.clone(), second: segment.segment_id.clone() });
                    proof {
                        assert(cls == EntryClass::Audio);
                        let ps = ae + at_;
                        assert(ae + at_.push(pos) =~= ps.push(pos));
                        assert forall|q: int| 0 <= q < ps.len() + 1 implies audio_matches(#[trigger] audio_items@[q], ts, ps.push(pos)[q], at) by {
                            if q < ps.len() {
                                assert(audio_items@[q] == old_items[q]);
                            }
                        }
                        assert forall|q: int| 0 <= q < ps.len() + 1 implies key_view(#[trigger] audio_keys_v@[q]) == audio_key(ts, ps.push(pos)[q]) by {
                            if q < ps.len() {
                                assert(audio_keys_v@[q] == old_keys[q]);
                            }
                        }
                    }
                },
                TrackKind::Video | TrackKind::Sticker => {
                    match track.stack_index {
                        Some(stack_index) => {
                            if segment.visual.visible {
                                let item = FrameVisualLayer {
                                    track_id: track.track_id.clone(),
                                    segment_id: segment.segment_id.clone(),
                                    material_id: segment.material.material_id.clone(),
                                    material_kind: segment.material.kind,
                                    stack_index,
                                    source_position,
                                    target_timerange: segment.target_timerange,
                                    retiming: segment.retiming.duplicate(),
                                    visual: resolve_segment_visual(segment, segment_time),
                                };
                                let ghost old_items = visual_items@;
                                let ghost old_keys = visual_keys@;
                                visual_items.push(item);
                                visual_keys.push(SortKey { rank: stack_index as u64, first: track.track_id.clone(), second: segment.segment_id.clone() });
                                proof {
                                    assert(cls == EntryClass::Visual);
                                    let ps = ve + vt;
                                    assert(ve + vt.push(pos) =~= ps.push(pos));
                                    assert forall|q: int| 0 <= q < ps.len() + 1 implies visual_matches(#[trigger] visual_items@[q], ts, ps.push(pos)[q], at) by {
                                        if q < ps.len() {
                                            assert(visual_items@[q] == old_items[q]);
                                        }
                                    }
                                    assert forall|q: int| 0 <= q < ps.len() + 1 implies key_view(#[trigger] visual_keys@[q]) == layer_key(ts, ps.push(pos)[q]) by {
                                        if q < ps.len() {
                                            assert(visual_keys@[q] == old_keys[q]);
                                        }
                                    }
                                }
                            }
                        },
                        None => {},
                    }
                },
                TrackKind::Text => {
                    match track.stack_index {
                        Some(stack_index) => {
                            if segment.visual.visible {
                                match &segment.text {
                                    Some(text) => {
                                        let layout = match &normalized.profile.text_layout {
                                            Some(l) => l,
                                            None => {
                                                proof {
                                                    assert(entry_problem(nd, i as int, j as int, at) == Some(EngineErrorKind::MissingTextLayoutProfile));
                                                    assert(track_frame_problem(nd, i as int, j + 1, at) == Some(EngineErrorKind::MissingTextLayoutProfile));
                                                    lemma_track_frame_problem_extends(nd, i as int, j + 1, at);
                                                    assert(frame_problem_upto(nd, i + 1, at) == Some(EngineErrorKind::MissingTextLayoutProfile));
                                                    lemma_frame_problem_extends(nd, i + 1, at);
                                                }
                                                return Err(EngineError::new(
                                                    EngineErrorKind::MissingTextLayoutProfile,
                                                    lit("active text segment requires a deterministic text layout profile"),
                                                ).with_segment_id(segment.segment_id.clone()).with_material_id(segment.material.material_id.clone()));
                                            },
                                        };
                                        let resolved_text = resolve_segment_text(segment, text, segment_time);
                                        let overlay = match resolve_text_overlay(&track.track_id, segment, &resolved_text, stack_index,
                                            source_position, layout, normalized.profile.canvas_width, normalized.profile.canvas_height) {
                                            Ok(o) => o,
                                            Err(e) => {
                                                proof {
                                                    assert(entry_problem(nd, i as int, j as int, at) == Some(EngineErrorKind::InvalidTextLayoutProfile));
                                                    assert(track_frame_problem(nd, i as int, j + 1, at) == Some(e.kind));
                                                    lemma_track_frame_problem_extends(nd, i as int, j + 1, at);
                                                    assert(frame_problem_upto(nd, i + 1, at) == Some(e.kind));
                                                    lemma_frame_problem_extends(nd, i + 1, at);
                                                }
                                                return Err(e);
                                            },
                                        };
                                        let ghost old_items = text_items@;
                                        let ghost old_keys = text_keys@;
                                        text_items.push(overlay);
                                        text_keys.push(SortKey { rank: stack_index as u64, first: track.track_id.clone(), second: segment.segment_id.clone() });
                                        proof {
                                            assert(cls == EntryClass::Text);
                                            let ps = te + tt;
                                            assert(te + tt.push(pos) =~= ps.push(pos));
                                            assert forall|q: int| 0 <= q < ps.len() + 1 implies text_matches(#[trigger] text_items@[q], nd, ps.push(pos)[q], at) by {
                                                if q < ps.len() {
                                                    assert(text_items@[q] == old_items[q]);
                                                }
                                            }
                                            assert forall|q: int| 0 <= q < ps.len() + 1 implies key_view(#[trigger] text_keys@[q]) == layer_key(ts, ps.push(pos)[q]) by {
                                                if q < ps.len() {
                                                    assert(text_keys@[q] == old_keys[q]);
                                                }
                                            }
                                        }
                                    },
                                    None => {},
                                }
                            }
                        },
                        None => {},
                    }
                },
                TrackKind::Filter => {},
            }
            proof {
                assert(track_frame_problem(nd, i as int, j + 1, at) is None);
            }
            j = j + 1;
        }
        proof {
            assert(frame_problem_upto(nd, i + 1, at) is None);
        }
        i = i + 1;
    }
    let ghost vi = visual_items@;
    let ghost ai = audio_items@;
    let ghost ti = text_items@;
    let visual_layers = sort_by_keys(visual_items, &visual_keys);
    let audio_segments = sort_by_keys(audio_items, &audio_keys_v);
    let text_overlays = sort_by_keys(text_items, &text_keys);
    proof {
        let n = ts.len() as int;
        let ve = entries(ts, n, at, EntryClass::Visual);
        let ae = entries(ts, n, at, EntryClass::Audio);
        let te = entries(ts, n, at, EntryClass::Text);
        let vo = choose|order: Seq<int>| #[trigger] in_key_order(visual_layers@, vi, visual_keys@, order);
        assert(visual_keys@.map_values(|k: SortKey| key_view(k)) =~= layer_keys(ts, ve));
        assert forall|k: int| 0 <= k < visual_layers@.len() implies visual_matches(#[trigger] visual_layers@[k], ts, ve[vo[k]], at) by {
            assert(visual_layers@[k] == vi[vo[k]]);
        }
        assert(is_stable_order(layer_keys(ts, ve), vo));
        let ao = choose|order: Seq<int>| #[trigger] in_key_order(audio_segments@, ai, audio_keys_v@, order);
        assert(audio_keys_v@.map_values(|k: SortKey| key_view(k)) =~= audio_keys(ts, ae));
        assert forall|k: int| 0 <= k < audio_segments@.len() implies audio_matches(#[trigger] audio_segments@[k], ts, ae[ao[k]], at) by {
            assert(audio_segments@[k] == ai[ao[k]]);
        }
        assert(is_stable_order(audio_keys(ts, ae), ao));
        let to = choose|order: Seq<int>| #[trigger] in_key_order(text_overlays@, ti, text_keys@, order);
        assert(text_keys@.map_values(|k: SortKey| key_view(k)) =~= layer_keys(ts, te));
        assert forall|k: int| 0 <= k < text_overlays@.len() implies text_matches(#[trigger] text_overlays@[k], nd, te[to[k]], at) by {
            assert(text_overlays@[k] == ti[to[k]]);
        }
        assert(is_stable_order(layer_keys(ts, te), to));
    }
    Ok(FrameState { at, visual_layers, audio_segments, text_overlays })
}

/// Position on the timeline of frame `k` of a render range.
pub open spec fn range_position(range: TargetTimerange, fr: RationalFrameRate, k: int) -> u64 {
    (range.start + frame_us(k, fr)) as u64
}

/// Frames `0..n` of the range start before its end and resolve.
pub open spec fn range_frames_ok(nd: NormalizedDraft, range: TargetTimerange, fr: RationalFrameRate, n: int) -> bool {
    forall|k: int| 0 <= k < n ==> #[trigger] frame_us(k, fr) < range.duration
        && frame_problem(nd, range_position(range, fr, k)) is None
}

/// Samples a render range at the draft's frame rate: frame `k` is at the
/// range start plus the start time of frame `k`, for every frame that
/// starts before the range's duration has passed.
pub fn resolve_render_range(normalized: &NormalizedDraft, target_timerange: TargetTimerange) -> (r: Result<RenderRangeState, EngineError>)
    ensures
        match r {
            Ok(rs) => {
                let fr = normalized.profile.frame_rate;
                let n = rs.frames@.len() as int;
                &&& target_timerange.start + target_timerange.duration <= u64::MAX
                &&& frame_rate_valid(fr)
                &&& rs.target_timerange == target_timerange
                &&& rs.frame_rate == fr
                &&& frame_us(n, fr) >= target_timerange.duration
                &&& range_frames_ok(*normalized, target_timerange, fr, n)
                &&& forall|k: int| 0 <= k < n ==> frame_matches(#[trigger] rs.frames@[k], *normalized, range_position(target_timerange, fr, k))
            },
            Err(e) => {
                let fr = normalized.profile.frame_rate;
                ||| target_timerange.start + target_timerange.duration > u64::MAX && e.kind == EngineErrorKind::TimerangeOverflow
                ||| target_timerange.start + target_timerange.duration <= u64::MAX && !frame_rate_valid(fr)
                    && e.kind == EngineErrorKind::InvalidFrameRate
                ||| target_timerange.start + target_timerange.duration <= u64::MAX && frame_rate_valid(fr)
                    && exists|n: int| 0 <= n <= u64::MAX && #[trigger] range_frames_ok(*normalized, target_timerange, fr, n) && {
                        ||| frame_us(n, fr) > u64::MAX && e.kind == EngineErrorKind::TimerangeOverflow
                        ||| frame_us(n, fr) < target_timerange.duration
                            && frame_problem(*normalized, range_position(target_timerange, fr, n)) == Some(e.kind)
                        ||| n == u64::MAX && range_frames_ok(*normalized, target_timerange, fr, n + 1)
                            && e.kind == EngineErrorKind::TimerangeOverflow
                    }
            },
        },
{
    if target_timerange.duration > u64::MAX - target_timerange.start {
        return Err(EngineError::new(
            EngineErrorKind::TimerangeOverflow,
            lit("render range targetTimerange start + duration overflowed u64 microseconds"),
        ));
    }
    let target_end = target_timerange.start + target_timerange.duration;
    let render_range = RenderRange { target_timerange, frame_rate: normalized.profile.frame_rate };
    match validate_frame_rate(&render_range.frame_rate) {
        Ok(()) => {},
        Err(e) => return Err(e),
    }
    let ghost fr = render_range.frame_rate;
    let mut frames: Vec<FrameState> = Vec::new();
    let mut frame_index: u64 = 0;
    loop
        invariant
            fr == normalized.profile.frame_rate,
            render_range.frame_rate == fr,
            render_range.target_timerange == target_timerange,
            frame_rate_valid(fr),
            target_end == target_timerange.start + target_timerange.duration,
            frames@.len() == frame_index,
            range_frames_ok(*normalized, target_timerange, fr, frame_index as int),
            forall|k: int| 0 <= k < frame_index ==> frame_matches(#[trigger] frames@[k], *normalized, range_position(target_timerange, fr, k)),
        ensures
            frame_us(frames@.len() as int, fr) >= target_timerange.duration,
        decreases u64::MAX - frame_index,
    {
        let offset = match frame_index_to_microseconds(frame_index, &render_range.frame_rate) {
            Ok(v) => v,
            Err(e) => {
                proof {
                    assert(range_frames_ok(*normalized, target_timerange, fr, frame_index as int));
                }
                return Err(e);
            },
        };
        if offset >= render_range.target_timerange.duration {
            break;
        }
        if offset > u64::MAX - render_range.target_timerange.start {
            return Err(EngineError::new(
                EngineErrorKind::TimerangeOverflow,
                lit("render range frame position overflowed u64 microseconds"),
            ));
        }
        let at = render_range.target_timerange.start + offset;
        if at >= target_end {
            break;
        }
        proof {
            assert(at == range_position(target_timerange, fr, frame_index as int));
        }
        let frame = match resolve_frame_state(normalized, at) {
            Ok(f) => f,
            Err(e) => {
                proof {
                    assert(range_frames_ok(*normalized, target_timerange, fr, frame_index as int));
                }
                return Err(e);
            },
        };
        let ghost before = frames@;
        frames.push(frame);
        proof {
            assert forall|k: int| 0 <= k < frame_index + 1 implies #[trigger] frame_us(k, fr) < target_timerange.duration
                && frame_problem(*normalized, range_position(target_timerange, fr, k)) is None by {
                if k < frame_index {
                    assert(range_frames_ok(*normalized, target_timerange, fr, frame_index as int));
                }
            }
            assert forall|k: int| 0 <= k < frame_index + 1 implies frame_matches(#[trigger] frames@[k], *normalized, range_position(target_timerange, fr, k)) by {
                if k < frame_index {
                    assert(frames@[k] == before[k]);
                }
            }
        }
        if frame_index == u64::MAX {
            proof {
                assert(range_frames_ok(*normalized, target_timerange, fr, frame_index as int + 1));
            }
            return Err(EngineError::new(
                EngineErrorKind::TimerangeOverflow,
                lit("render range frame index overflowed u64"),
            ));
        }
        frame_index = frame_index + 1;
    }
    Ok(RenderRangeState {
        target_timerange: render_range.target_timerange,
        frame_rate: render_range.frame_rate,
        frames,
    })
}

/// Within a frame, visual layers and text overlays come in stacking order
/// (bottom first) and audio segments in track order.
pub proof fn law_frame_layers_ordered(fs: FrameState, nd: NormalizedDraft, at: u64, a: int, b: int)
    requires
        frame_matches(fs, nd, at),
    ensures
        0 <= a < b < fs.visual_layers@.len() ==> fs.visual_layers@[a].stack_index <= fs.visual_layers@[b].stack_index,
        0 <= a < b < fs.text_overlays@.len() ==> fs.text_overlays@[a].stack_index <= fs.text_overlays@[b].stack_index,
        0 <= a < b < fs.audio_segments@.len() ==> !crate::text::seq_char_lt(fs.audio_segments@[b].track_id@, fs.audio_segments@[a].track_id@),
{
    let ts = nd.tracks@;
    let n = ts.len() as int;
    if 0 <= a < b < fs.visual_layers@.len() {
        let ps = entries(ts, n, at, EntryClass::Visual);
        let order = choose|order: Seq<int>| #[trigger] is_stable_order(layer_keys(ts, ps), order)
            && fs.visual_layers@.len() == ps.len()
            && forall|k: int| 0 <= k < fs.visual_layers@.len() ==> visual_matches(#[trigger] fs.visual_layers@[k], ts, ps[order[k]], at);
        let keys = layer_keys(ts, ps);
        assert(crate::order::pos_before(keys, order[a], order[b]));
        assert(visual_matches(fs.visual_layers@[a], ts, ps[order[a]], at));
        assert(visual_matches(fs.visual_layers@[b], ts, ps[order[b]], at));
    }
    if 0 <= a < b < fs.text_overlays@.len() {
        let ps = entries(ts, n, at, EntryClass::Text);
        let order = choose|order: Seq<int>| #[trigger] is_stable_order(layer_keys(ts, ps), order)
            && fs.text_overlays@.len() == ps.len()
            && forall|k: int| 0 <= k < fs.text_overlays@.len() ==> text_matches(#[trigger] fs.text_overlays@[k], nd, ps[order[k]], at);
        let keys = layer_keys(ts, ps);
        assert(crate::order::pos_before(keys, order[a], order[b]));
        assert(text_matches(fs.text_overlays@[a], nd, ps[order[a]], at));
        assert(text_matches(fs.text_overlays@[b], nd, ps[order[b]], at));
    }
    if 0 <= a < b < fs.audio_segments@.len() {
        let ps = entries(ts, n, at, EntryClass::Audio);
        let order = choose|order: Seq<int>| #[trigger] is_stable_order(audio_keys(ts, ps), order)
            && fs.audio_segments@.len() == ps.len()
            && forall|k: int| 0 <= k < fs.audio_segments@.len() ==> audio_matches(#[trigger] fs.audio_segments@[k], ts, ps[order[k]], at);
        let keys = audio_keys(ts, ps);
        let x = order[a];
        let y = order[b];
        assert(crate::order::pos_before(keys, x, y));
        assert(audio_matches(fs.audio_segments@[a], ts, ps[x], at));
        assert(audio_matches(fs.audio_segments@[b], ts, ps[y], at));
        crate::order::lemma_key_lt_order(keys[x], keys[y], keys[x]);
        if crate::text::seq_char_lt(keys[y].1, keys[x].1) && crate::text::seq_char_lt(keys[x].1, keys[y].1) {
            crate::text::lemma_seq_char_lt_asymmetric(keys[x].1, keys[y].1);
        }
        crate::text::lemma_seq_char_lt_irreflexive(keys[x].1);
    }
}

proof fn lemma_track_entries_hold(ts: Seq<NormalizedTrack>, i: int, m: int, j: int, at: u64, c: EntryClass)
    requires
        0 <= j < m,
        entry_class(ts, i, j, at) == c,
    ensures
        track_entries(ts, i, m, at, c).contains((i, j)),
    decreases m,
{
    if j < m - 1 {
        lemma_track_entries_hold(ts, i, m - 1, j, at, c);
        let prev = track_entries(ts, i, m - 1, at, c);
        let x = choose|x: int| 0 <= x < prev.len() && prev[x] == (i, j);
        if entry_class(ts, i, m - 1, at) == c {
            assert(prev.push((i, m - 1))[x] == (i, j));
        }
    } else {
        let prev = track_entries(ts, i, m - 1, at, c);
        assert(prev.push((i, j))[prev.len() as int] == (i, j));
    }
}

proof fn lemma_entries_hold(ts: Seq<NormalizedTrack>, n: int, i: int, j: int, at: u64, c: EntryClass)
    requires
        0 <= i < n <= ts.len(),
        0 <= j < ts[i].segments@.len(),
        entry_class(ts, i, j, at) == c,
    ensures
        entries(ts, n, at, c).contains((i, j)),
    decreases n,
{
    let a = entries(ts, n - 1, at, c);
    let b = track_entries(ts, n - 1, ts[n - 1].segments@.len() as int, at, c);
    if i < n - 1 {
        lemma_entries_hold(ts, n - 1, i, j, at, c);
        let x = choose|x: int| 0 <= x < a.len() && a[x] == (i, j);
        assert((a + b)[x] == (i, j));
    } else {
        lemma_track_entries_hold(ts, i, ts[i].segments@.len() as int, j, at, c);
        let x = choose|x: int| 0 <= x < b.len() && b[x] == (i, j);
        assert((a + b)[a.len() + x] == (i, j));
    }
}

/// Every visible, renderable segment of a stacked video or sticker track
/// that covers `at` is drawn: the frame at `at` holds a visual layer for
/// it, from its track and at the track's stack index.
pub proof fn law_active_drawn_segment_is_layered(fs: FrameState, nd: NormalizedDraft, at: u64, i: int, j: int)
    requires
        frame_matches(fs, nd, at),
        0 <= i < nd.tracks@.len(),
        0 <= j < nd.tracks@[i].segments@.len(),
        nd.tracks@[i].kind == TrackKind::Video || nd.tracks@[i].kind == TrackKind::Sticker,
        nd.tracks@[i].stack_index is Some,
        nd.tracks@[i].segments@[j].visual.visible,
        nd.tracks@[i].segments@[j].renderable == MaterialRenderableState::Renderable,
        nd.tracks@[i].segments@[j].target_timerange.start <= at,
        at < nd.tracks@[i].segments@[j].target_end,
    ensures
        exists|k: int| 0 <= k < fs.visual_layers@.len() && {
            let l = #[trigger] fs.visual_layers@[k];
            &&& l.track_id@ == nd.tracks@[i].track_id@
            &&& l.segment_id@ == nd.tracks@[i].segments@[j].segment_id@
            &&& l.stack_index == nd.tracks@[i].stack_index->0
        },
{
    let ts = nd.tracks@;
    let n = ts.len() as int;
    let ps = entries(ts, n, at, EntryClass::Visual);
    assert(entry_class(ts, i, j, at) == EntryClass::Visual);
    lemma_entries_hold(ts, n, i, j, at, EntryClass::Visual);
    let x = choose|x: int| 0 <= x < ps.len() && ps[x] == (i, j);
    let order = choose|order: Seq<int>| #[trigger] is_stable_order(layer_keys(ts, ps), order)
        && fs.visual_layers@.len() == ps.len()
        && forall|k: int| 0 <= k < fs.visual_layers@.len() ==> visual_matches(#[trigger] fs.visual_layers@[k], ts, ps[order[k]], at);
    assert(order.contains(x));
    let k = choose|k: int| 0 <= k < order.len() && order[k] == x;
    assert(visual_matches(fs.visual_layers@[k], ts, ps[order[k]], at));
}

} // verus!
