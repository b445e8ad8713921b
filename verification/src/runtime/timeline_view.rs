//! Rules behind the timeline editor's view and edits: ruler ticks, time
//! labels, value ranges, trimming, keyframe times and labels.
use vstd::prelude::*;

use crate::engine::keyframes::{Keyframe, KeyframeEasing, KeyframeProperty};
use crate::engine::model::{
    AudioRetimePolicy, Draft, MaterialKind, RationalFrameRate, RetimeMode, Segment, SegmentRetiming, TargetTimerange,
    TrackKind,
};
use crate::runtime::session_edits::{format_keyframe_property, keyframe_property_name, property_label, property_name};
use crate::compiler::job::{is_ascii_alphanumeric, opt_text, sanitized};
use crate::engine::text_layout::{is_blank, str_is_blank};
use crate::text::{
    append_str, append_string, chars_of, decimal, i64_to_decimal, lit, push_char, signed_decimal,
    str_eq, string_from_chars, u64_to_decimal, u64_to_padded_decimal, zero_padded,
};

verus! {

/// The display name of a mask shape.
pub open spec fn mask_label(label: Seq<char>) -> Seq<char> {
    if label == "rectangle"@ {
        "矩形蒙版"@
    } else if label == "ellipse"@ {
        "椭圆蒙版"@
    } else {
        label
    }
}

/// Localized mask names; other labels are kept.
pub fn localize_mask_label(label: &str) -> (r: String)
    ensures
        r@ == mask_label(label@),
{
    if str_eq(label, "rectangle") {
        lit("矩形蒙版")
    } else if str_eq(label, "ellipse") {
        lit("椭圆蒙版")
    } else {
        lit(label)
    }
}

/// Seven ruler ticks spread over the duration: `k * max(duration / 6, 1)`
/// capped at the duration.
pub open spec fn ruler_tick(duration: u64, k: int) -> u64 {
    let interval = if duration / 6 < 1 { 1 } else { duration / 6 };
    let v = k * interval;
    if v > duration { duration } else { v as u64 }
}

/// The ruler ticks of a timeline.
pub fn build_ruler_ticks(duration: u64) -> (r: Vec<u64>)
    ensures
        r@.len() == 7,
        forall|k: int| 0 <= k < 7 ==> #[trigger] r@[k] == ruler_tick(duration, k),
{
    let interval: u64 = if duration / 6 < 1 { 1 } else { duration / 6 };
    let mut r: Vec<u64> = Vec::new();
    let mut k: u64 = 0;
    while k <= 6
        invariant
            interval == (if duration / 6 < 1 { 1u64 } else { duration / 6 }),
            k <= 7,
            r@.len() == k,
            forall|q: int| 0 <= q < k ==> #[trigger] r@[q] == ruler_tick(duration, q),
        decreases 7 - k,
    {
        proof {
            assert(k * interval <= 6 * interval) by (nonlinear_arith)
                requires k <= 6, interval >= 1;
            assert(6 * interval <= u64::MAX) by (nonlinear_arith)
                requires interval == (if duration / 6 < 1 { 1u64 } else { duration / 6 });
        }
        let prod = k * interval;
        r.push(if prod > duration { duration } else { prod });
        k = k + 1;
    }
    r
}

/// `HH:MM:SS.mmm` of a time in microseconds (hours at least two digits).
pub open spec fn timeline_time_text(time_us: u64) -> Seq<char> {
    let total_millis = time_us / 1000;
    let total_seconds = total_millis / 1000;
    let total_minutes = total_seconds / 60;
    zero_padded((total_minutes / 60) as nat, 2) + ":"@ + zero_padded((total_minutes % 60) as nat, 2) + ":"@
        + zero_padded((total_seconds % 60) as nat, 2) + "."@ + zero_padded((total_millis % 1000) as nat, 3)
}

/// A timeline time label.
pub fn format_timeline_time(time_us: u64) -> (r: String)
    ensures
        r@ == timeline_time_text(time_us),
{
    let total_millis = time_us / 1000;
    let total_seconds = total_millis / 1000;
    let total_minutes = total_seconds / 60;
    let mut r = u64_to_padded_decimal(total_minutes / 60, 2);
    append_str(&mut r, ":");
    let m = u64_to_padded_decimal(total_minutes % 60, 2);
    append_string(&mut r, &m);
    append_str(&mut r, ":");
    let sec = u64_to_padded_decimal(total_seconds % 60, 2);
    append_string(&mut r, &sec);
    append_str(&mut r, ".");
    let ms = u64_to_padded_decimal(total_millis % 1000, 3);
    append_string(&mut r, &ms);
    r
}

/// The message of a value outside its allowed range.
pub open spec fn range_message(label: Seq<char>, min: Seq<char>, max: Seq<char>) -> Seq<char> {
    label + "必须在 "@ + min + " 到 "@ + max + " 之间"@
}

/// `value` if it lies in `[min, max]`, else the range message.
pub fn checked_u32(label: &str, value: u32, min: u32, max: u32) -> (r: Result<u32, String>)
    ensures
        match r {
            Ok(v) => min <= value <= max && v == value,
            Err(m) => (value < min || value > max)
                && m@ == range_message(label@, decimal(min as nat), decimal(max as nat)),
        },
{
    if value < min || value > max {
        let mut m = lit(label);
        append_str(&mut m, "必须在 ");
        let a = u64_to_decimal(min as u64);
        append_string(&mut m, &a);
        append_str(&mut m, " 到 ");
        let b = u64_to_decimal(max as u64);
        append_string(&mut m, &b);
        append_str(&mut m, " 之间");
        return Err(m);
    }
    Ok(value)
}

/// `value` if it lies in `[min, max]`, else the range message.
pub fn checked_i32(label: &str, value: i32, min: i32, max: i32) -> (r: Result<i32, String>)
    ensures
        match r {
            Ok(v) => min <= value <= max && v == value,
            Err(m) => (value < min || value > max)
                && m@ == range_message(label@, signed_decimal(min as int), signed_decimal(max as int)),
        },
{
    if value < min || value > max {
        let mut m = lit(label);
        append_str(&mut m, "必须在 ");
        let a = i64_to_decimal(min as i64);
        append_string(&mut m, &a);
        append_str(&mut m, " 到 ");
        let b = i64_to_decimal(max as i64);
        append_string(&mut m, &b);
        append_str(&mut m, " 之间");
        return Err(m);
    }
    Ok(value)
}

/// `value` raised to `min`, then lowered to `max`.
pub fn clamp_i32(value: i32, min: i32, max: i32) -> (r: i32)
    ensures
        r == (if (if value >= min { value } else { min }) <= max { if value >= min { value } else { min } } else { max }),
{
    let raised = if value >= min { value } else { min };
    if raised <= max { raised } else { max }
}

/// An angle brought into `[-180, 180]` by whole turns.
pub open spec fn normalized_rotation(value: int) -> int {
    if value > 180 {
        value - 360 * ((value - 180 + 359) / 360)
    } else if value < -180 {
        value + 360 * ((-180 - value + 359) / 360)
    } else {
        value
    }
}

/// Rotation in degrees within `[-180, 180]`.
pub fn normalize_rotation_degrees(value: i32) -> (r: i32)
    ensures
        r == normalized_rotation(value as int),
        -180 <= r <= 180,
        (r - value) % 360 == 0,
{
    let mut normalized = value;
    let ghost mut j: int = 0;
    while normalized > 180
        invariant
            normalized == value - 360 * j,
            j >= 0,
            j > 0 ==> value > 180 && normalized + 360 > 180,
        decreases normalized + 180,
    {
        normalized = normalized - 360;
        proof {
            j = j + 1;
        }
    }
    let ghost mid = normalized;
    let ghost mut k: int = 0;
    while normalized < -180
        invariant
            normalized == mid + 360 * k,
            mid <= 180,
            k >= 0,
            k > 0 ==> mid < -180 && normalized - 360 < -180,
        decreases 180 - normalized,
    {
        normalized = normalized + 360;
        proof {
            k = k + 1;
        }
    }
    proof {
        if value > 180 {
            assert(j > 0);
            assert(k == 0);
            assert(j == (value - 180 + 359) / 360);
        } else if value < -180 {
            assert(j == 0);
            assert(k > 0);
            assert(k == (-180 - value + 359) / 360);
        }
    }
    normalized
}

/// Index of the first character from `i` on that is not `-`.
pub open spec fn first_non_dash(s: Seq<char>, i: int) -> int
    decreases s.len() - i,
{
    if i < 0 || i >= s.len() {
        s.len() as int
    } else if s[i] != '-' {
        i
    } else {
        first_non_dash(s, i + 1)
    }
}

/// End (exclusive) of `s` once trailing `-` before `j` are dropped.
pub open spec fn end_non_dash(s: Seq<char>, j: int) -> int
    decreases j,
{
    if j <= 0 || j > s.len() {
        0
    } else if s[j - 1] != '-' {
        j
    } else {
        end_non_dash(s, j - 1)
    }
}

/// `s` without leading and trailing `-`.
pub open spec fn trim_dashes(s: Seq<char>) -> Seq<char> {
    let a = first_non_dash(s, 0);
    if a >= s.len() { Seq::empty() } else { s.subrange(a, end_non_dash(s, s.len() as int)) }
}

proof fn lemma_end_non_dash(s: Seq<char>, j: int, a: int)
    requires
        0 <= a < j <= s.len(),
        s[a] != '-',
    ensures
        a < end_non_dash(s, j) <= j,
    decreases j,
{
    if s[j - 1] == '-' {
        lemma_end_non_dash(s, j - 1, a);
    }
}

proof fn lemma_first_non_dash(s: Seq<char>, i: int)
    requires
        0 <= i <= s.len(),
    ensures
        i <= first_non_dash(s, i) <= s.len(),
        first_non_dash(s, i) < s.len() ==> s[first_non_dash(s, i)] != '-',
    decreases s.len() - i,
{
    if i < s.len() && s[i] == '-' {
        lemma_first_non_dash(s, i + 1);
    }
}

/// A template import id: ASCII letters, digits, `-` and `_` kept, other
/// characters turned into `-`, then surrounding `-` removed.
pub fn sanitize_template_import_id(value: &str) -> (r: String)
    ensures
        r@ == trim_dashes(sanitized(value@)),
{
    let id = crate::compiler::job::sanitize_id(value);
    let cs = chars_of(id.as_str());
    let ghost s = cs@;
    let n = cs.len();
    let mut a: usize = 0;
    while a < n && cs[a] == '-'
        invariant
            s == cs@,
            n == s.len(),
            a <= n,
            first_non_dash(s, 0) == first_non_dash(s, a as int),
        decreases n - a,
    {
        a = a + 1;
    }
    proof {
        lemma_first_non_dash(s, 0);
    }
    if a >= n {
        return String::new();
    }
    let mut b: usize = n;
    while b > a && cs[b - 1] == '-'
        invariant
            s == cs@,
            n == s.len(),
            a < b <= n,
            s[a as int] != '-',
            end_non_dash(s, n as int) == end_non_dash(s, b as int),
        decreases b,
    {
        b = b - 1;
    }
    proof {
        lemma_end_non_dash(s, b as int, a as int);
    }
    let mut out: Vec<char> = Vec::new();
    let mut i: usize = a;
    while i < b
        invariant
            s == cs@,
            a <= i <= b,
            b <= s.len(),
            out@ == s.subrange(a as int, i as int),
        decreases b - i,
    {
        out.push(cs[i]);
        i = i + 1;
        assert(out@ =~= s.subrange(a as int, i as int));
    }
    string_from_chars(out.as_slice())
}

/// The file stem (`Path::file_stem`) of a path, when it has one.
pub uninterp spec fn file_stem_of(path: Seq<char>) -> Option<Seq<char>>;

/// The file stem of `path`, by `std::path::Path::file_stem`. A stem taken
/// from a `&str` path is valid UTF-8, so the conversion back keeps it whole.
#[verifier::external_body]
fn file_stem(path: &str) -> (r: Option<String>)
    ensures
        opt_text(r) == file_stem_of(path@),
{
    std::path::Path::new(path).file_stem().and_then(|name| name.to_str()).map(|name| name.to_owned())
}

/// The name of a draft opened from a bundle whose file stem is `stem`: the
/// stem unless it is missing or blank, else `未命名项目`.
pub open spec fn draft_name_text(stem: Option<Seq<char>>) -> Seq<char> {
    match stem {
        Some(n) => if is_blank(n) { "未命名项目"@ } else { n },
        None => "未命名项目"@,
    }
}

/// The draft name given the bundle's file stem.
pub fn draft_name_from_stem(stem: Option<String>) -> (r: String)
    ensures
        r@ == draft_name_text(opt_text(stem)),
{
    match stem {
        Some(name) => if str_is_blank(name.as_str()) { lit("未命名项目") } else { name },
        None => lit("未命名项目"),
    }
}

/// The default name of a draft stored in the bundle at `bundle_path`.
pub fn default_draft_name(bundle_path: &str) -> (r: String)
    ensures
        r@ == draft_name_text(file_stem_of(bundle_path@)),
{
    draft_name_from_stem(file_stem(bundle_path))
}

/// The import id of a template whose file stem is `stem`: the sanitized
/// stem unless that is empty, else `offline-template-import`.
pub open spec fn template_import_id_text(stem: Option<Seq<char>>) -> Seq<char> {
    match stem {
        Some(n) => if trim_dashes(sanitized(n)).len() == 0 {
            "offline-template-import"@
        } else {
            trim_dashes(sanitized(n))
        },
        None => "offline-template-import"@,
    }
}

/// The template import id given the template bundle's file stem.
pub fn template_import_id_from_stem(stem: Option<String>) -> (r: String)
    ensures
        r@ == template_import_id_text(opt_text(stem)),
{
    match stem {
        Some(name) => {
            let id = sanitize_template_import_id(name.as_str());
            proof {
                reveal_strlit("");
                if id@.len() == 0 {
                    assert(id@ =~= ""@);
                }
            }
            if str_eq(id.as_str(), "") {
                lit("offline-template-import")
            } else {
                id
            }
        },
        None => lit("offline-template-import"),
    }
}

/// The default import id of the template bundle at `formula_bundle_path`.
pub fn default_template_import_id(formula_bundle_path: &str) -> (r: String)
    ensures
        r@ == template_import_id_text(file_stem_of(formula_bundle_path@)),
{
    template_import_id_from_stem(file_stem(formula_bundle_path))
}

/// Which edge of a segment a trim moves.
#[derive(Debug, Clone, Copy, PartialEq, Eq, Structural)]
pub enum TrimSegmentDirection {
    Left,
    Right,
}

/// The target range after trimming: the chosen edge moves to `trim_at`,
/// kept inside the old range and at least one microsecond long.
pub open spec fn trimmed_range(t: TargetTimerange, direction: TrimSegmentDirection, trim_at: u64) -> TargetTimerange {
    let old_end = t.start + t.duration;
    match direction {
        TrimSegmentDirection::Left => {
            let hi = old_end - 1;
            let s = if trim_at < t.start { t.start as int } else if trim_at > hi { hi } else { trim_at as int };
            TargetTimerange { start: s as u64, duration: (old_end - s) as u64 }
        },
        TrimSegmentDirection::Right => {
            let lo = t.start + 1;
            let e = if trim_at < lo { lo } else if trim_at > old_end { old_end } else { trim_at as int };
            TargetTimerange { start: t.start, duration: (e - t.start) as u64 }
        },
    }
}

/// Trims a segment's target range at `trim_at`.
pub fn trim_target_timerange(target: &TargetTimerange, direction: TrimSegmentDirection, trim_at: u64) -> (r: Result<TargetTimerange, String>)
    ensures
        match r {
            Ok(t) => target.duration > 0 && target.start + target.duration <= u64::MAX
                && t == trimmed_range(*target, direction, trim_at),
            Err(m) => (target.duration == 0 && m@ == "裁剪片段失败：片段时长无效"@)
                || (target.duration > 0 && target.start + target.duration > u64::MAX && m@ == "裁剪片段失败：片段时间范围溢出"@),
        },
{
    let old_start = target.start;
    let old_duration = target.duration;
    if old_duration == 0 {
        return Err(lit("裁剪片段失败：片段时长无效"));
    }
    if old_duration > u64::MAX - old_start {
        return Err(lit("裁剪片段失败：片段时间范围溢出"));
    }
    let old_end = old_start + old_duration;
    match direction {
        TrimSegmentDirection::Left => {
            let hi = old_end - 1;
            let s = if trim_at < old_start { old_start } else if trim_at > hi { hi } else { trim_at };
            Ok(TargetTimerange { start: s, duration: old_end - s })
        },
        TrimSegmentDirection::Right => {
            let lo = old_start + 1;
            let e = if trim_at < lo { lo } else if trim_at > old_end { old_end } else { trim_at };
            Ok(TargetTimerange { start: old_start, duration: e - old_start })
        },
    }
}

/// A timeline time relative to a segment's start, within the segment.
pub open spec fn spec_relative_time(t: TargetTimerange, timeline_at: u64) -> u64 {
    let rel = if timeline_at >= t.start { timeline_at - t.start } else { 0 };
    (if rel > t.duration { t.duration as int } else { rel }) as u64
}

/// Segment-relative time of a timeline position, clamped to the segment.
pub fn relative_keyframe_time(target: &TargetTimerange, timeline_at: u64) -> (r: u64)
    ensures
        r == spec_relative_time(*target, timeline_at),
{
    let rel = timeline_at.saturating_sub(target.start);
    if rel > target.duration { target.duration } else { rel }
}

/// Duration of one frame in microseconds, rounded down, at least 1 (zero
/// rate parts count as 1).
pub open spec fn spec_frame_duration(fr: RationalFrameRate) -> u64 {
    let n = if fr.numerator < 1 { 1 } else { fr.numerator as int };
    let d = if fr.denominator < 1 { 1 } else { fr.denominator as int };
    let v = d * 1_000_000 / n;
    (if v < 1 { 1 } else { v }) as u64
}

/// The length of a frame.
pub fn frame_duration_us(frame_rate: &RationalFrameRate) -> (r: u64)
    ensures
        r == spec_frame_duration(*frame_rate),
{
    let n: u64 = if frame_rate.numerator < 1 { 1 } else { frame_rate.numerator as u64 };
    let d: u64 = if frame_rate.denominator < 1 { 1 } else { frame_rate.denominator as u64 };
    let v = d * 1_000_000 / n;
    if v < 1 { 1 } else { v }
}

/// Latest segment end among the first `j` segments of the first `i`
/// tracks (each end saturating at `u64::MAX`).
pub open spec fn draft_end(d: Draft, i: int, j: int) -> int
    decreases i, j,
{
    if i <= 0 {
        0
    } else if j <= 0 {
        draft_end(d, i - 1, if i - 1 > 0 { d.tracks@[i - 2].segments@.len() as int } else { 0 })
    } else {
        let t = d.tracks@[i - 1].segments@[j - 1].target_timerange;
        let e = if t.start + t.duration > u64::MAX { u64::MAX as int } else { t.start + t.duration };
        let m = draft_end(d, i, j - 1);
        if m >= e { m } else { e }
    }
}

/// The latest end of any segment of the draft.
pub open spec fn spec_sequence_duration(d: Draft) -> int {
    let n = d.tracks@.len() as int;
    draft_end(d, n, if n > 0 { d.tracks@[n - 1].segments@.len() as int } else { 0 })
}

/// How long the draft's timeline is: the latest segment end.
pub fn sequence_duration(draft: &Draft) -> (r: u64)
    ensures
        r == spec_sequence_duration(*draft),
{
    let mut duration: u64 = 0;
    let mut i: usize = 0;
    while i < draft.tracks.len()
        invariant
            i <= draft.tracks@.len(),
            duration == draft_end(*draft, i as int, if i > 0 { draft.tracks@[i - 1].segments@.len() as int } else { 0 }),
        decreases draft.tracks@.len() - i,
    {
        let track = &draft.tracks[i];
        let mut j: usize = 0;
        proof {
            assert(draft_end(*draft, i + 1, 0) == draft_end(*draft, i as int, if i > 0 { draft.tracks@[i - 1].segments@.len() as int } else { 0 }));
        }
        while j < track.segments.len()
            invariant
                i < draft.tracks@.len(),
                *track == draft.tracks@[i as int],
                j <= track.segments@.len(),
                duration == draft_end(*draft, i + 1, j as int),
            decreases track.segments@.len() - j,
        {
            let t = track.segments[j].target_timerange;
            let e = t.start.saturating_add(t.duration);
            if e > duration {
                duration = e;
            }
            j = j + 1;
        }
        i = i + 1;
    }
    duration
}

/// Display name of an easing.
pub open spec fn easing_label(easing: KeyframeEasing) -> Seq<char> {
    match easing {
        KeyframeEasing::NoEasing => "无"@,
        KeyframeEasing::EaseIn => "缓入"@,
        KeyframeEasing::EaseOut => "缓出"@,
        KeyframeEasing::EaseInOut => "缓入缓出"@,
    }
}

/// Display name of an easing.
pub fn format_keyframe_easing(easing: KeyframeEasing) -> (r: &'static str)
    ensures
        r@ == easing_label(easing),
{
    match easing {
        KeyframeEasing::NoEasing => "无",
        KeyframeEasing::EaseIn => "缓入",
        KeyframeEasing::EaseOut => "缓出",
        KeyframeEasing::EaseInOut => "缓入缓出",
    }
}

/// Display name of an audio retime policy.
pub fn localize_audio_retime_policy(policy: AudioRetimePolicy) -> (r: String)
    ensures
        r@ == match policy {
            AudioRetimePolicy::FollowVideoSpeed => "音频跟随变速"@,
            AudioRetimePolicy::PreservePitch => "保持音调暂不支持"@,
            AudioRetimePolicy::MuteUnsupported => "不支持时静音"@,
        },
{
    match policy {
        AudioRetimePolicy::FollowVideoSpeed => lit("音频跟随变速"),
        AudioRetimePolicy::PreservePitch => lit("保持音调暂不支持"),
        AudioRetimePolicy::MuteUnsupported => lit("不支持时静音"),
    }
}

/// Whether a segment plays at other than normal speed.
pub fn is_segment_speed_adjusted(retiming: &SegmentRetiming) -> (r: bool)
    ensures
        r == match retiming.mode {
            RetimeMode::Constant { speed } => speed.numerator != speed.denominator,
            RetimeMode::SpeedCurve { .. } => true,
        },
{
    match &retiming.mode {
        RetimeMode::Constant { speed } => speed.numerator != speed.denominator,
        RetimeMode::SpeedCurve { .. } => true,
    }
}

/// The speed label of a segment: `1.5x` (one decimal, truncated) for a
/// constant speed, a fixed label for a curve or an undefined ratio.
pub open spec fn retime_label(retiming: SegmentRetiming) -> Seq<char> {
    match retiming.mode {
        RetimeMode::Constant { speed } => if speed.denominator == 0 {
            "常规变速"@
        } else {
            let pm = (speed.numerator as int) * 1000 / (speed.denominator as int);
            decimal((pm / 1000) as nat) + "."@ + decimal(((pm % 1000) / 100) as nat) + "x"@
        },
        RetimeMode::SpeedCurve { .. } => "曲线变速"@,
    }
}

/// The speed label of a segment.
pub fn format_segment_retime_label(retiming: &SegmentRetiming) -> (r: String)
    ensures
        r@ == retime_label(*retiming),
{
    match &retiming.mode {
        RetimeMode::Constant { speed } => {
            if speed.denominator == 0 {
                return lit("常规变速");
            }
            let pm = (speed.numerator as u64 * 1000) / speed.denominator as u64;
            let mut r = u64_to_decimal(pm / 1000);
            append_str(&mut r, ".");
            let d = u64_to_decimal((pm % 1000) / 100);
            append_string(&mut r, &d);
            append_str(&mut r, "x");
            r
        },
        RetimeMode::SpeedCurve { .. } => lit("曲线变速"),
    }
}

/// Which materials a track of each kind accepts.
pub open spec fn accepts(track_kind: TrackKind, material_kind: MaterialKind) -> bool {
    match track_kind {
        TrackKind::Video => material_kind == MaterialKind::Video || material_kind == MaterialKind::Image,
        TrackKind::Audio => material_kind == MaterialKind::Audio,
        TrackKind::Text => material_kind == MaterialKind::Text,
        TrackKind::Sticker => material_kind == MaterialKind::Sticker,
        TrackKind::Filter => material_kind == MaterialKind::Video || material_kind == MaterialKind::Image,
    }
}

/// Whether a track of a kind can hold a material of a kind.
pub fn track_accepts_material_kind(track_kind: TrackKind, material_kind: MaterialKind) -> (r: bool)
    ensures
        r == accepts(track_kind, material_kind),
{
    match track_kind {
        TrackKind::Video => material_kind == MaterialKind::Video || material_kind == MaterialKind::Image,
        TrackKind::Audio => material_kind == MaterialKind::Audio,
        TrackKind::Text => material_kind == MaterialKind::Text,
        TrackKind::Sticker => material_kind == MaterialKind::Sticker,
        TrackKind::Filter => material_kind == MaterialKind::Video || material_kind == MaterialKind::Image,
    }
}

/// Trimming keeps a segment inside its old range and at least one
/// microsecond long; a left trim keeps the end, a right trim the start.
pub proof fn law_trim_stays_within_segment(t: TargetTimerange, direction: TrimSegmentDirection, trim_at: u64)
    requires
        t.duration > 0,
        t.start + t.duration <= u64::MAX,
    ensures
        trimmed_range(t, direction, trim_at).start >= t.start,
        trimmed_range(t, direction, trim_at).start + trimmed_range(t, direction, trim_at).duration <= t.start + t.duration,
        trimmed_range(t, direction, trim_at).duration >= 1,
        direction == TrimSegmentDirection::Left ==> trimmed_range(t, direction, trim_at).start + trimmed_range(t, direction, trim_at).duration == t.start + t.duration,
        direction == TrimSegmentDirection::Right ==> trimmed_range(t, direction, trim_at).start == t.start,
{
}

/// A segment-relative time never passes the end of the segment.
pub proof fn law_relative_time_within_segment(t: TargetTimerange, timeline_at: u64)
    ensures
        spec_relative_time(t, timeline_at) <= t.duration,
        t.start <= timeline_at <= t.start + t.duration ==> spec_relative_time(t, timeline_at) == timeline_at - t.start,
{
}

/// Normalizing a rotation lands in `[-180, 180]` by whole turns, and an
/// angle already there is kept, so normalizing twice changes nothing.
pub proof fn law_rotation_normalization_is_idempotent(value: int)
    ensures
        -180 <= normalized_rotation(value) <= 180,
        (normalized_rotation(value) - value) % 360 == 0,
        normalized_rotation(normalized_rotation(value)) == normalized_rotation(value),
{
    if value > 180 {
        let q = (value - 180 + 359) / 360;
        assert(-180 <= value - 360 * q <= 180) by (nonlinear_arith)
            requires value > 180, q == (value - 180 + 359) / 360;
        assert((value - 360 * q - value) % 360 == 0) by (nonlinear_arith)
            requires q >= 0;
    } else if value < -180 {
        let q = (-180 - value + 359) / 360;
        assert(-180 <= value + 360 * q <= 180) by (nonlinear_arith)
            requires value < -180, q == (-180 - value + 359) / 360;
        assert((value + 360 * q - value) % 360 == 0) by (nonlinear_arith)
            requires q >= 0;
    }
}

/// A keyframe as the timeline marks it on its segment.
#[derive(Debug, Clone)]
pub struct TimelineKeyframeMarkerViewModel {
    pub marker_key: String,
    pub property: KeyframeProperty,
    pub at: u64,
    pub position_per_mille: u32,
    pub title: String,
    pub aria_label: String,
}

/// Where a keyframe at `at` sits along a segment of `duration`, in
/// thousandths, the time held to the segment.
pub open spec fn marker_position(at: u64, duration: u64) -> int {
    let d = if duration < 1 { 1 } else { duration as int };
    let c = if (at as int) < d { at as int } else { d };
    let m = if c * 1000 > u64::MAX { u64::MAX as int } else { c * 1000 };
    m / d
}

/// A keyframe marker never leaves its segment: its position is between 0
/// and 1000 thousandths, whatever the keyframe's time.
pub proof fn law_keyframe_marker_within_segment(at: u64, duration: u64)
    ensures
        0 <= marker_position(at, duration) <= 1000,
{
    let d: int = if duration < 1 { 1 } else { duration as int };
    let c: int = if (at as int) < d { at as int } else { d };
    let m: int = if c * 1000 > u64::MAX { u64::MAX as int } else { c * 1000 };
    assert(0 <= m <= c * 1000);
    assert(0 <= m / d <= 1000) by (nonlinear_arith)
        requires
            d >= 1,
            0 <= c <= d,
            0 <= m <= c * 1000;
}

/// The marker of a keyframe on the segment labelled `segment_label`.
pub open spec fn keyframe_marker_matches(m: TimelineKeyframeMarkerViewModel, k: Keyframe, duration: u64, segment_label: Seq<char>) -> bool {
    let time = timeline_time_text(k.at);
    let prop = property_label(k.property);
    &&& m.marker_key@ == property_name(k.property) + "-"@ + decimal(k.at as nat)
    &&& m.property == k.property
    &&& m.at == k.at
    &&& m.position_per_mille == marker_position(k.at, duration)
    &&& m.title@ == prop + "关键帧 "@ + time + " · "@ + easing_label(k.easing)
    &&& m.aria_label@ == segment_label + " "@ + prop + "关键帧 "@ + time
}

/// One marker per keyframe of the segment, in order.
pub fn timeline_keyframe_markers(segment: &Segment, segment_label: &str) -> (r: Vec<TimelineKeyframeMarkerViewModel>)
    ensures
        r@.len() == segment.keyframes@.len(),
        forall|i: int| 0 <= i < r@.len() ==> keyframe_marker_matches(#[trigger] r@[i], segment.keyframes@[i],
            segment.target_timerange.duration, segment_label@),
{
    let duration = if segment.target_timerange.duration < 1 { 1 } else { segment.target_timerange.duration };
    let mut markers: Vec<TimelineKeyframeMarkerViewModel> = Vec::new();
    let mut i: usize = 0;
    while i < segment.keyframes.len()
        invariant
            i <= segment.keyframes@.len(),
            duration == if segment.target_timerange.duration < 1 { 1 } else { segment.target_timerange.duration },
            markers@.len() == i,
            forall|q: int| 0 <= q < i ==> keyframe_marker_matches(#[trigger] markers@[q], segment.keyframes@[q],
                segment.target_timerange.duration, segment_label@),
        decreases segment.keyframes@.len() - i,
    {
        let k = &segment.keyframes[i];
        let clamped = if k.at < duration { k.at } else { duration };
        let scaled: u64 = if clamped > u64::MAX / 1000 { u64::MAX } else { clamped * 1000 };
        let position = scaled / duration;
        proof {
            assert(position <= 1000) by (nonlinear_arith)
                requires
                    clamped <= duration,
                    duration >= 1,
                    scaled <= clamped * 1000,
                    position == scaled / duration;
        }
        let prop = format_keyframe_property(k.property);
        let time = format_timeline_time(k.at);
        let easing = format_keyframe_easing(k.easing);
        let mut key = lit(keyframe_property_name(k.property));
        append_str(&mut key, "-");
        let at = u64_to_decimal(k.at);
        append_string(&mut key, &at);
        let mut title = lit(prop);
        append_str(&mut title, "关键帧 ");
        append_string(&mut title, &time);
        append_str(&mut title, " · ");
        append_str(&mut title, easing);
        let mut aria = lit(segment_label);
        append_str(&mut aria, " ");
        append_str(&mut aria, prop);
        append_str(&mut aria, "关键帧 ");
        append_string(&mut aria, &time);
        markers.push(TimelineKeyframeMarkerViewModel {
            marker_key: key,
            property: k.property,
            at: k.at,
            position_per_mille: position as u32,
            title,
            aria_label: aria,
        });
        i = i + 1;
    }
    markers
}

} // verus!
