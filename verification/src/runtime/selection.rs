//! The timeline selection of a project session and what edits resolve
//! from it: the selected track and segment, target tracks for new
//! segments, and the keyframes an edit sets.
use vstd::prelude::*;

use crate::engine::keyframes::{Keyframe, KeyframeEasing, KeyframeInterpolation, KeyframeProperty, KeyframeValue};
use crate::engine::model::{Draft, Material, MaterialKind, Segment, Track, TrackKind};
use crate::runtime::session_edits::{is_current_value, keyframe_value_for_segment, keyframe_value_problem};
use crate::runtime::timeline_view::{accepts, relative_keyframe_time, spec_relative_time, track_accepts_material_kind};
use crate::text::{append_str, append_string, decimal, lit, str_eq, u64_to_decimal};

verus! {

/// The selected segments and tracks, in selection order.
#[derive(Debug, Clone)]
pub struct TimelineSelection {
    pub segment_ids: Vec<String>,
    pub track_ids: Vec<String>,
}

// ---------------------------------------------------------------------------
// Finding tracks, segments and materials
// ---------------------------------------------------------------------------

/// Index of the first of the first `n` tracks with id `id`, or -1.
pub open spec fn track_index(ts: Seq<Track>, id: Seq<char>, n: int) -> int
    decreases n,
{
    if n <= 0 {
        -1
    } else if track_index(ts, id, n - 1) >= 0 {
        track_index(ts, id, n - 1)
    } else if ts[n - 1].track_id@ == id {
        n - 1
    } else {
        -1
    }
}

/// Index of the first of the first `n` segments with id `id`, or -1.
pub open spec fn segment_index(ss: Seq<Segment>, id: Seq<char>, n: int) -> int
    decreases n,
{
    if n <= 0 {
        -1
    } else if segment_index(ss, id, n - 1) >= 0 {
        segment_index(ss, id, n - 1)
    } else if ss[n - 1].segment_id@ == id {
        n - 1
    } else {
        -1
    }
}

/// Index of the first of the first `n` tracks holding a segment `id`, or -1.
pub open spec fn holding_track_index(ts: Seq<Track>, id: Seq<char>, n: int) -> int
    decreases n,
{
    if n <= 0 {
        -1
    } else if holding_track_index(ts, id, n - 1) >= 0 {
        holding_track_index(ts, id, n - 1)
    } else if segment_index(ts[n - 1].segments@, id, ts[n - 1].segments@.len() as int) >= 0 {
        n - 1
    } else {
        -1
    }
}

/// Index of the first of the first `n` materials with id `id`, or -1.
pub open spec fn first_material_index(ms: Seq<Material>, id: Seq<char>, n: int) -> int
    decreases n,
{
    if n <= 0 {
        -1
    } else if first_material_index(ms, id, n - 1) >= 0 {
        first_material_index(ms, id, n - 1)
    } else if ms[n - 1].material_id@ == id {
        n - 1
    } else {
        -1
    }
}

proof fn lemma_track_index(ts: Seq<Track>, id: Seq<char>, n: int)
    requires
        0 <= n <= ts.len(),
    ensures
        -1 <= track_index(ts, id, n) < n,
        track_index(ts, id, n) >= 0 ==> ts[track_index(ts, id, n)].track_id@ == id,
    decreases n,
{
    if n > 0 {
        lemma_track_index(ts, id, n - 1);
    }
}

proof fn lemma_segment_index(ss: Seq<Segment>, id: Seq<char>, n: int)
    requires
        0 <= n <= ss.len(),
    ensures
        -1 <= segment_index(ss, id, n) < n,
        segment_index(ss, id, n) >= 0 ==> ss[segment_index(ss, id, n)].segment_id@ == id,
    decreases n,
{
    if n > 0 {
        lemma_segment_index(ss, id, n - 1);
    }
}

proof fn lemma_holding_track_index(ts: Seq<Track>, id: Seq<char>, n: int)
    requires
        0 <= n <= ts.len(),
    ensures
        -1 <= holding_track_index(ts, id, n) < n,
        holding_track_index(ts, id, n) >= 0 ==> segment_index(
            ts[holding_track_index(ts, id, n)].segments@,
            id,
            ts[holding_track_index(ts, id, n)].segments@.len() as int,
        ) >= 0,
    decreases n,
{
    if n > 0 {
        lemma_holding_track_index(ts, id, n - 1);
    }
}

proof fn lemma_first_material_index(ms: Seq<Material>, id: Seq<char>, n: int)
    requires
        0 <= n <= ms.len(),
    ensures
        -1 <= first_material_index(ms, id, n) < n,
        first_material_index(ms, id, n) >= 0 ==> ms[first_material_index(ms, id, n)].material_id@ == id,
    decreases n,
{
    if n > 0 {
        lemma_first_material_index(ms, id, n - 1);
    }
}

fn find_track(tracks: &Vec<Track>, id: &str) -> (r: Option<usize>)
    ensures
        match r {
            Some(i) => i as int == track_index(tracks@, id@, tracks@.len() as int) && i < tracks@.len(),
            None => track_index(tracks@, id@, tracks@.len() as int) == -1,
        },
{
    let mut i: usize = 0;
    while i < tracks.len()
        invariant
            i <= tracks@.len(),
            track_index(tracks@, id@, i as int) == -1,
        decreases tracks@.len() - i,
    {
        if str_eq(tracks[i].track_id.as_str(), id) {
            proof {
                lemma_track_index_settles(tracks@, id@, i + 1, tracks@.len() as int);
            }
            return Some(i);
        }
        i = i + 1;
    }
    None
}

proof fn lemma_track_index_settles(ts: Seq<Track>, id: Seq<char>, a: int, b: int)
    requires
        a <= b,
        track_index(ts, id, a) >= 0,
    ensures
        track_index(ts, id, b) == track_index(ts, id, a),
    decreases b - a,
{
    if a < b {
        lemma_track_index_settles(ts, id, a, b - 1);
    }
}

proof fn lemma_segment_index_settles(ss: Seq<Segment>, id: Seq<char>, a: int, b: int)
    requires
        a <= b,
        segment_index(ss, id, a) >= 0,
    ensures
        segment_index(ss, id, b) == segment_index(ss, id, a),
    decreases b - a,
{
    if a < b {
        lemma_segment_index_settles(ss, id, a, b - 1);
    }
}

proof fn lemma_holding_settles(ts: Seq<Track>, id: Seq<char>, a: int, b: int)
    requires
        a <= b,
        holding_track_index(ts, id, a) >= 0,
    ensures
        holding_track_index(ts, id, b) == holding_track_index(ts, id, a),
    decreases b - a,
{
    if a < b {
        lemma_holding_settles(ts, id, a, b - 1);
    }
}

proof fn lemma_material_settles(ms: Seq<Material>, id: Seq<char>, a: int, b: int)
    requires
        a <= b,
        first_material_index(ms, id, a) >= 0,
    ensures
        first_material_index(ms, id, b) == first_material_index(ms, id, a),
    decreases b - a,
{
    if a < b {
        lemma_material_settles(ms, id, a, b - 1);
    }
}

fn find_segment(segments: &Vec<Segment>, id: &str) -> (r: Option<usize>)
    ensures
        match r {
            Some(i) => i as int == segment_index(segments@, id@, segments@.len() as int) && i < segments@.len(),
            None => segment_index(segments@, id@, segments@.len() as int) == -1,
        },
{
    let mut i: usize = 0;
    while i < segments.len()
        invariant
            i <= segments@.len(),
            segment_index(segments@, id@, i as int) == -1,
        decreases segments@.len() - i,
    {
        if str_eq(segments[i].segment_id.as_str(), id) {
            proof {
                lemma_segment_index_settles(segments@, id@, i + 1, segments@.len() as int);
            }
            return Some(i);
        }
        i = i + 1;
    }
    None
}

fn find_material(materials: &Vec<Material>, id: &str) -> (r: Option<usize>)
    ensures
        match r {
            Some(i) => i as int == first_material_index(materials@, id@, materials@.len() as int) && i < materials@.len(),
            None => first_material_index(materials@, id@, materials@.len() as int) == -1,
        },
{
    let mut i: usize = 0;
    while i < materials.len()
        invariant
            i <= materials@.len(),
            first_material_index(materials@, id@, i as int) == -1,
        decreases materials@.len() - i,
    {
        if str_eq(materials[i].material_id.as_str(), id) {
            proof {
                lemma_material_settles(materials@, id@, i + 1, materials@.len() as int);
            }
            return Some(i);
        }
        i = i + 1;
    }
    None
}

/// Position (track, segment) of the first segment with id `id`.
fn locate_segment(tracks: &Vec<Track>, id: &str) -> (r: Option<(usize, usize)>)
    ensures
        match r {
            Some((t, s)) => {
                let ti = holding_track_index(tracks@, id@, tracks@.len() as int);
                &&& t as int == ti
                &&& t < tracks@.len()
                &&& s as int == segment_index(tracks@[ti].segments@, id@, tracks@[ti].segments@.len() as int)
                &&& s < tracks@[ti].segments@.len()
            },
            None => holding_track_index(tracks@, id@, tracks@.len() as int) == -1,
        },
{
    let mut i: usize = 0;
    while i < tracks.len()
        invariant
            i <= tracks@.len(),
            holding_track_index(tracks@, id@, i as int) == -1,
        decreases tracks@.len() - i,
    {
        match find_segment(&tracks[i].segments, id) {
            Some(s) => {
                proof {
                    lemma_holding_settles(tracks@, id@, i + 1, tracks@.len() as int);
                }
                return Some((i, s));
            },
            None => {},
        }
        i = i + 1;
    }
    None
}

// ---------------------------------------------------------------------------
// The selection's track and segment
// ---------------------------------------------------------------------------

/// `{action}失败：` followed by `rest`.
pub open spec fn action_error(action: Seq<char>, rest: Seq<char>) -> Seq<char> {
    action + "失败："@ + rest
}

fn action_message(action: &str, rest: &str) -> (r: String)
    ensures
        r@ == action_error(action@, rest@),
{
    let mut m = lit(action);
    append_str(&mut m, "失败：");
    append_str(&mut m, rest);
    m
}

/// The selected track: the first selected track id, which must name a
/// track of the draft.
pub open spec fn selected_track_result(draft: Draft, selection: TimelineSelection, action: Seq<char>) -> Result<Seq<char>, Seq<char>> {
    if selection.track_ids@.len() == 0 {
        Err(action_error(action, "请先选择一个轨道"@))
    } else if track_index(draft.tracks@, selection.track_ids@[0]@, draft.tracks@.len() as int) >= 0 {
        Ok(selection.track_ids@[0]@)
    } else {
        Err(action_error(action, "选中的轨道不存在"@))
    }
}

/// The id of the selected track.
pub fn selected_track_id(draft: &Draft, selection: &TimelineSelection, action: &str) -> (r: Result<String, String>)
    ensures
        match selected_track_result(*draft, *selection, action@) {
            Ok(id) => r matches Ok(v) && v@ == id,
            Err(m) => r matches Err(e) && e@ == m,
        },
{
    if selection.track_ids.len() == 0 {
        return Err(action_message(action, "请先选择一个轨道"));
    }
    let id = &selection.track_ids[0];
    match find_track(&draft.tracks, id.as_str()) {
        Some(_) => Ok(id.clone()),
        None => Err(action_message(action, "选中的轨道不存在")),
    }
}

/// Where the selected segment is: the first selected segment id, found in
/// the first track holding it. Ok is (track index, segment index).
pub open spec fn selected_segment_position(draft: Draft, selection: TimelineSelection, action: Seq<char>) -> Result<(int, int), Seq<char>> {
    if selection.segment_ids@.len() == 0 {
        Err(action_error(action, "请先选择一个片段"@))
    } else {
        let id = selection.segment_ids@[0]@;
        let ti = holding_track_index(draft.tracks@, id, draft.tracks@.len() as int);
        if ti >= 0 {
            let ss = draft.tracks@[ti].segments@;
            Ok((ti, segment_index(ss, id, ss.len() as int)))
        } else {
            Err(action_error(action, "选中的片段不存在"@))
        }
    }
}

/// The selected segment of the draft.
pub fn selected_segment<'a>(draft: &'a Draft, selection: &TimelineSelection, action: &str) -> (r: Result<&'a Segment, String>)
    ensures
        match selected_segment_position(*draft, *selection, action@) {
            Ok((t, s)) => r matches Ok(seg) && *seg == draft.tracks@[t].segments@[s],
            Err(m) => r matches Err(e) && e@ == m,
        },
{
    if selection.segment_ids.len() == 0 {
        return Err(action_message(action, "请先选择一个片段"));
    }
    match locate_segment(&draft.tracks, selection.segment_ids[0].as_str()) {
        Some((t, s)) => Ok(&draft.tracks[t].segments[s]),
        None => Err(action_message(action, "选中的片段不存在")),
    }
}

/// The id of the selected segment, which must still be on the timeline.
pub fn selected_segment_id(draft: &Draft, selection: &TimelineSelection, action: &str) -> (r: Result<String, String>)
    ensures
        match selected_segment_position(*draft, *selection, action@) {
            Ok(_) => r matches Ok(v) && v@ == selection.segment_ids@[0]@,
            Err(m) => r matches Err(e) && e@ == m,
        },
{
    if selection.segment_ids.len() == 0 {
        return Err(action_message(action, "请先选择一个片段"));
    }
    let id = &selection.segment_ids[0];
    match locate_segment(&draft.tracks, id.as_str()) {
        Some(_) => Ok(id.clone()),
        None => Err(action_message(action, "选中的片段不存在")),
    }
}

/// The selected segment's id and the id of the track holding it.
pub fn selected_segment_location(draft: &Draft, selection: &TimelineSelection, action: &str) -> (r: Result<(String, String), String>)
    ensures
        match selected_segment_position(*draft, *selection, action@) {
            Ok((t, _)) => r matches Ok((s, tr)) && s@ == selection.segment_ids@[0]@ && tr@ == draft.tracks@[t].track_id@,
            Err(m) => r matches Err(e) && e@ == m,
        },
{
    if selection.segment_ids.len() == 0 {
        return Err(action_message(action, "请先选择一个片段"));
    }
    let id = &selection.segment_ids[0];
    match locate_segment(&draft.tracks, id.as_str()) {
        Some((t, _)) => Ok((id.clone(), draft.tracks[t].track_id.clone())),
        None => Err(action_message(action, "选中的片段不存在")),
    }
}

// ---------------------------------------------------------------------------
// Target tracks of new segments
// ---------------------------------------------------------------------------

/// Debug name of a track kind.
pub open spec fn track_kind_name(kind: TrackKind) -> Seq<char> {
    match kind {
        TrackKind::Video => "Video"@,
        TrackKind::Audio => "Audio"@,
        TrackKind::Text => "Text"@,
        TrackKind::Sticker => "Sticker"@,
        TrackKind::Filter => "Filter"@,
    }
}

fn track_kind_debug(kind: TrackKind) -> (r: &'static str)
    ensures
        r@ == track_kind_name(kind),
{
    match kind {
        TrackKind::Video => "Video",
        TrackKind::Audio => "Audio",
        TrackKind::Text => "Text",
        TrackKind::Sticker => "Sticker",
        TrackKind::Filter => "Filter",
    }
}

/// Debug name of a material kind.
pub open spec fn material_kind_name(kind: MaterialKind) -> Seq<char> {
    match kind {
        MaterialKind::Video => "Video"@,
        MaterialKind::Audio => "Audio"@,
        MaterialKind::Image => "Image"@,
        MaterialKind::Text => "Text"@,
        MaterialKind::Sticker => "Sticker"@,
    }
}

fn material_kind_debug(kind: MaterialKind) -> (r: &'static str)
    ensures
        r@ == material_kind_name(kind),
{
    match kind {
        MaterialKind::Video => "Video",
        MaterialKind::Audio => "Audio",
        MaterialKind::Image => "Image",
        MaterialKind::Text => "Text",
        MaterialKind::Sticker => "Sticker",
    }
}

/// A selection of just one track.
pub open spec fn single_track(selection: TimelineSelection, id: Seq<char>) -> bool {
    selection.segment_ids@.len() == 0 && selection.track_ids@.len() == 1 && selection.track_ids@[0]@ == id
}

/// Where a segment of a track kind goes: the current selection without a
/// target, else the target track, which must exist and be of that kind.
pub open spec fn kind_target_problem(draft: Draft, target_track_id: Seq<char>, expected_kind: TrackKind, action: Seq<char>) -> Option<Seq<char>> {
    let ti = track_index(draft.tracks@, target_track_id, draft.tracks@.len() as int);
    if ti < 0 {
        Some(action_error(action, "目标轨道不存在"@))
    } else if draft.tracks@[ti].kind != expected_kind {
        Some(action_error(action, "目标轨道 "@ + draft.tracks@[ti].name@ + " 不是 "@ + track_kind_name(expected_kind) + " 轨道"@))
    } else {
        None
    }
}

fn duplicate_selection(selection: &TimelineSelection) -> (r: TimelineSelection)
    ensures
        crate::text::strings_view(r.segment_ids@) == crate::text::strings_view(selection.segment_ids@),
        crate::text::strings_view(r.track_ids@) == crate::text::strings_view(selection.track_ids@),
{
    TimelineSelection {
        segment_ids: crate::text::clone_strings(&selection.segment_ids),
        track_ids: crate::text::clone_strings(&selection.track_ids),
    }
}

fn track_selection(id: String) -> (r: TimelineSelection)
    ensures
        single_track(r, id@),
{
    let mut track_ids: Vec<String> = Vec::new();
    track_ids.push(id);
    TimelineSelection { segment_ids: Vec::new(), track_ids }
}

/// The selection a new segment of `expected_kind` is added against: the
/// current one, or the target track (already resolved from its handle).
pub fn selection_for_kind_target_track(
    draft: &Draft,
    selection: &TimelineSelection,
    target_track_id: Option<&str>,
    expected_kind: TrackKind,
    action: &str,
) -> (r: Result<TimelineSelection, String>)
    ensures
        match target_track_id {
            None => r matches Ok(s) && crate::text::strings_view(s.segment_ids@) == crate::text::strings_view(selection.segment_ids@)
                && crate::text::strings_view(s.track_ids@) == crate::text::strings_view(selection.track_ids@),
            Some(id) => match kind_target_problem(*draft, id@, expected_kind, action@) {
                None => r matches Ok(s) && single_track(s, id@),
                Some(m) => r matches Err(e) && e@ == m,
            },
        },
{
    let id = match target_track_id {
        None => return Ok(duplicate_selection(selection)),
        Some(id) => id,
    };
    let t = match find_track(&draft.tracks, id) {
        Some(t) => t,
        None => return Err(action_message(action, "目标轨道不存在")),
    };
    let track = &draft.tracks[t];
    if track.kind != expected_kind {
        let mut m = action_message(action, "目标轨道 ");
        append_string(&mut m, &track.name);
        append_str(&mut m, " 不是 ");
        append_str(&mut m, track_kind_debug(expected_kind));
        append_str(&mut m, " 轨道");
        return Err(m);
    }
    Ok(track_selection(lit(id)))
}

/// Where a segment of a material goes: the target track must exist, the
/// material must exist, and the track must accept its kind.
pub open spec fn material_target_problem(draft: Draft, target_track_id: Seq<char>, material_id: Seq<char>, action: Seq<char>) -> Option<Seq<char>> {
    let ti = track_index(draft.tracks@, target_track_id, draft.tracks@.len() as int);
    let mi = first_material_index(draft.materials@, material_id, draft.materials@.len() as int);
    if ti < 0 {
        Some(action_error(action, "目标轨道不存在"@))
    } else if mi < 0 {
        Some(action_error(action, "素材不存在 "@ + material_id))
    } else if !accepts(draft.tracks@[ti].kind, draft.materials@[mi].kind) {
        Some(action_error(action, "素材 "@ + material_kind_name(draft.materials@[mi].kind) + " 不能添加到 "@
            + track_kind_name(draft.tracks@[ti].kind) + " 轨道"@))
    } else {
        None
    }
}

/// The selection a segment of `material_id` is added against: the current
/// one, or the target track (already resolved from its handle).
pub fn selection_for_material_target_track(
    draft: &Draft,
    selection: &TimelineSelection,
    target_track_id: Option<&str>,
    material_id: &str,
    action: &str,
) -> (r: Result<TimelineSelection, String>)
    ensures
        match target_track_id {
            None => r matches Ok(s) && crate::text::strings_view(s.segment_ids@) == crate::text::strings_view(selection.segment_ids@)
                && crate::text::strings_view(s.track_ids@) == crate::text::strings_view(selection.track_ids@),
            Some(id) => match material_target_problem(*draft, id@, material_id@, action@) {
                None => r matches Ok(s) && single_track(s, id@),
                Some(m) => r matches Err(e) && e@ == m,
            },
        },
{
    let id = match target_track_id {
        None => return Ok(duplicate_selection(selection)),
        Some(id) => id,
    };
    let t = match find_track(&draft.tracks, id) {
        Some(t) => t,
        None => return Err(action_message(action, "目标轨道不存在")),
    };
    let m = match find_material(&draft.materials, material_id) {
        Some(m) => m,
        None => {
            let mut e = action_message(action, "素材不存在 ");
            append_str(&mut e, material_id);
            return Err(e);
        },
    };
    let track = &draft.tracks[t];
    let material = &draft.materials[m];
    if !track_accepts_material_kind(track.kind, material.kind) {
        let mut e = action_message(action, "素材 ");
        append_str(&mut e, material_kind_debug(material.kind));
        append_str(&mut e, " 不能添加到 ");
        append_str(&mut e, track_kind_debug(track.kind));
        append_str(&mut e, " 轨道");
        return Err(e);
    }
    Ok(track_selection(lit(id)))
}

// ---------------------------------------------------------------------------
// Keyframes set on the selected segment
// ---------------------------------------------------------------------------

fn duplicate_value(v: &KeyframeValue) -> (r: KeyframeValue)
    ensures
        r == *v,
{
    match v {
        KeyframeValue::Int { value } => KeyframeValue::Int { value: *value },
        KeyframeValue::Uint { value } => KeyframeValue::Uint { value: *value },
        KeyframeValue::Color { value } => KeyframeValue::Color { value: value.clone() },
    }
}

/// A new keyframe of `property` on the selected segment at timeline
/// position `timeline_at`: at the segment-relative time (clamped to the
/// segment), with the property's current value.
pub fn keyframe_for_selected_segment(
    draft: &Draft,
    selection: &TimelineSelection,
    property: KeyframeProperty,
    timeline_at: u64,
    interpolation: KeyframeInterpolation,
    easing: KeyframeEasing,
) -> (r: Result<(String, Keyframe), String>)
    ensures
        match selected_segment_position(*draft, *selection, "设置关键帧"@) {
            Ok((t, s)) => {
                let seg = draft.tracks@[t].segments@[s];
                match keyframe_value_problem(seg, property) {
                    None => r matches Ok((id, k)) && id@ == seg.segment_id@ && k.property == property
                        && k.at == spec_relative_time(seg.target_timerange, timeline_at)
                        && is_current_value(k.value, seg, property) && k.interpolation == interpolation && k.easing == easing,
                    Some(m) => r matches Err(e) && e@ == m,
                }
            },
            Err(m) => r matches Err(e) && e@ == m,
        },
{
    let segment = match selected_segment(draft, selection, "设置关键帧") {
        Ok(s) => s,
        Err(e) => return Err(e),
    };
    let at = relative_keyframe_time(&segment.target_timerange, timeline_at);
    let value = match keyframe_value_for_segment(segment, property) {
        Ok(v) => v,
        Err(e) => return Err(e),
    };
    Ok((segment.segment_id.clone(), Keyframe { at, property, value, interpolation, easing }))
}

/// Index of the first keyframe of `property` at time `at`, or -1.
pub open spec fn keyframe_at_index(kfs: Seq<Keyframe>, property: KeyframeProperty, at: u64, n: int) -> int
    decreases n,
{
    if n <= 0 {
        -1
    } else if keyframe_at_index(kfs, property, at, n - 1) >= 0 {
        keyframe_at_index(kfs, property, at, n - 1)
    } else if kfs[n - 1].property == property && kfs[n - 1].at == at {
        n - 1
    } else {
        -1
    }
}

proof fn lemma_keyframe_at_settles(kfs: Seq<Keyframe>, property: KeyframeProperty, at: u64, a: int, b: int)
    requires
        a <= b,
        keyframe_at_index(kfs, property, at, a) >= 0,
    ensures
        keyframe_at_index(kfs, property, at, b) == keyframe_at_index(kfs, property, at, a),
    decreases b - a,
{
    if a < b {
        lemma_keyframe_at_settles(kfs, property, at, a, b - 1);
    }
}

proof fn lemma_keyframe_at_index(kfs: Seq<Keyframe>, property: KeyframeProperty, at: u64, n: int)
    requires
        0 <= n <= kfs.len(),
    ensures
        -1 <= keyframe_at_index(kfs, property, at, n) < n,
    decreases n,
{
    if n > 0 {
        lemma_keyframe_at_index(kfs, property, at, n - 1);
    }
}

fn find_keyframe_at(kfs: &Vec<Keyframe>, property: KeyframeProperty, at: u64) -> (r: Option<usize>)
    ensures
        match r {
            Some(i) => i as int == keyframe_at_index(kfs@, property, at, kfs@.len() as int) && i < kfs@.len(),
            None => keyframe_at_index(kfs@, property, at, kfs@.len() as int) == -1,
        },
{
    let mut i: usize = 0;
    while i < kfs.len()
        invariant
            i <= kfs@.len(),
            keyframe_at_index(kfs@, property, at, i as int) == -1,
        decreases kfs@.len() - i,
    {
        if kfs[i].property == property && kfs[i].at == at {
            proof {
                lemma_keyframe_at_settles(kfs@, property, at, i + 1, kfs@.len() as int);
            }
            return Some(i);
        }
        i = i + 1;
    }
    None
}

/// Why a keyframe edit cannot be made on segment `seg`, if it cannot:
/// both times must lie within the segment.
pub open spec fn keyframe_edit_problem(seg: Segment, at: u64, from_at: Option<u64>) -> Option<Seq<char>> {
    let d = seg.target_timerange.duration;
    if at > d {
        Some("编辑关键帧失败：关键帧时间 "@ + decimal(at as nat) + " 超出片段时长 "@ + decimal(d as nat))
    } else {
        match from_at {
            Some(s) => if s > d {
                Some("编辑关键帧失败：源关键帧时间 "@ + decimal(s as nat) + " 超出片段时长 "@ + decimal(d as nat))
            } else {
                None
            },
            None => None,
        }
    }
}

/// The keyframe an edit starts from: that of `property` at `from_at`.
pub open spec fn edit_source(seg: Segment, property: KeyframeProperty, from_at: Option<u64>) -> Option<Keyframe> {
    match from_at {
        Some(s) => {
            let i = keyframe_at_index(seg.keyframes@, property, s, seg.keyframes@.len() as int);
            if i >= 0 { Some(seg.keyframes@[i]) } else { None }
        },
        None => None,
    }
}

/// The edited keyframe of `property` at `at` on the selected segment: the
/// given value, interpolation and easing, else those of the keyframe it is
/// moved from, else the current value, linear and no easing.
pub fn keyframe_edit_for_selected_segment(
    draft: &Draft,
    selection: &TimelineSelection,
    property: KeyframeProperty,
    at: u64,
    from_at: Option<u64>,
    value: Option<KeyframeValue>,
    interpolation: Option<KeyframeInterpolation>,
    easing: Option<KeyframeEasing>,
) -> (r: Result<(String, Option<u64>, Keyframe), String>)
    ensures
        match selected_segment_position(*draft, *selection, "编辑关键帧"@) {
            Ok((t, s)) => {
                let seg = draft.tracks@[t].segments@[s];
                let source = edit_source(seg, property, from_at);
                match keyframe_edit_problem(seg, at, from_at) {
                    Some(m) => r matches Err(e) && e@ == m,
                    None => match (value, source) {
                        (None, None) => match keyframe_value_problem(seg, property) {
                            Some(m) => r matches Err(e) && e@ == m,
                            None => r matches Ok((id, f, k)) && id@ == seg.segment_id@ && f == from_at
                                && k.property == property && k.at == at && is_current_value(k.value, seg, property)
                                && k.interpolation == (match interpolation { Some(i) => i, None => KeyframeInterpolation::Linear })
                                && k.easing == (match easing { Some(e) => e, None => KeyframeEasing::NoEasing }),
                        },
                        _ => r matches Ok((id, f, k)) && id@ == seg.segment_id@ && f == from_at
                            && k.property == property && k.at == at
                            && (match value {
                                Some(v) => k.value == v,
                                None => source matches Some(sk) && k.value == sk.value,
                            })
                            && k.interpolation == (match interpolation {
                                Some(i) => i,
                                None => match source { Some(sk) => sk.interpolation, None => KeyframeInterpolation::Linear },
                            })
                            && k.easing == (match easing {
                                Some(e) => e,
                                None => match source { Some(sk) => sk.easing, None => KeyframeEasing::NoEasing },
                            }),
                    },
                }
            },
            Err(m) => r matches Err(e) && e@ == m,
        },
{
    let segment = match selected_segment(draft, selection, "编辑关键帧") {
        Ok(s) => s,
        Err(e) => return Err(e),
    };
    let duration = segment.target_timerange.duration;
    if at > duration {
        let mut m = lit("编辑关键帧失败：关键帧时间 ");
        let a = u64_to_decimal(at);
        append_string(&mut m, &a);
        append_str(&mut m, " 超出片段时长 ");
        let d = u64_to_decimal(duration);
        append_string(&mut m, &d);
        return Err(m);
    }
    match from_at {
        Some(source_at) => {
            if source_at > duration {
                let mut m = lit("编辑关键帧失败：源关键帧时间 ");
                let a = u64_to_decimal(source_at);
                append_string(&mut m, &a);
                append_str(&mut m, " 超出片段时长 ");
                let d = u64_to_decimal(duration);
                append_string(&mut m, &d);
                return Err(m);
            }
        },
        None => {},
    }
    let source: Option<usize> = match from_at {
        Some(source_at) => find_keyframe_at(&segment.keyframes, property, source_at),
        None => None,
    };
    proof {
        match from_at {
            Some(s) => lemma_keyframe_at_index(segment.keyframes@, property, s, segment.keyframes@.len() as int),
            None => {},
        }
    }
    let resolved_value = match value {
        Some(v) => v,
        None => match source {
            Some(i) => duplicate_value(&segment.keyframes[i].value),
            None => match keyframe_value_for_segment(segment, property) {
                Ok(v) => v,
                Err(e) => return Err(e),
            },
        },
    };
    let resolved_interpolation = match interpolation {
        Some(i) => i,
        None => match source {
            Some(i) => segment.keyframes[i].interpolation,
            None => KeyframeInterpolation::Linear,
        },
    };
    let resolved_easing = match easing {
        Some(e) => e,
        None => match source {
            Some(i) => segment.keyframes[i].easing,
            None => KeyframeEasing::NoEasing,
        },
    };
    Ok((
        segment.segment_id.clone(),
        from_at,
        Keyframe { property, at, value: resolved_value, interpolation: resolved_interpolation, easing: resolved_easing },
    ))
}

/// The next interaction id of a session: `{session}-interaction-{n}` with
/// the counter advanced (saturating); returns the id and the new counter.
pub fn next_project_interaction_id(session_id: &str, counter: u64) -> (r: (String, u64))
    ensures
        r.1 == if counter == u64::MAX { u64::MAX } else { (counter + 1) as u64 },
        r.0@ == session_id@ + "-interaction-"@ + decimal(r.1 as nat),
{
    let next = if counter == u64::MAX { u64::MAX } else { counter + 1 };
    let mut id = lit(session_id);
    append_str(&mut id, "-interaction-");
    let n = u64_to_decimal(next);
    append_string(&mut id, &n);
    (id, next)
}

} // verus!
