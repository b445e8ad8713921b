//! Retiming in the FFmpeg filter graph: `setpts` expressions for constant
//! and curved speeds, audio tempo decisions, and the source range a
//! retimed segment contributes to an output window.
use vstd::prelude::*;
use vstd::arithmetic::div_mod::*;
use vstd::arithmetic::mul::*;

use crate::compiler::job::{format_seconds, seconds_text, RenderIntentSupport};
use crate::engine::time_mapping::{curve_sum, curve_valid, ratio_value, span_end};
use crate::engine::model::{
    AudioRetimePolicy, RetimeMode, SegmentRetiming, SourceTimerange, SpeedCurvePoint, SpeedRatio,
    TargetTimerange,
};
use crate::text::{append_str, append_string, decimal, lit, u64_to_decimal};

verus! {

/// `value * numerator / max(denominator, 1)` rounded down, capped at `u64::MAX`.
pub open spec fn spec_scale(value: int, numerator: int, denominator: int) -> int {
    let d = if denominator < 1 { 1 } else { denominator };
    let v = value * numerator / d;
    if v > u64::MAX { u64::MAX as int } else { v }
}

/// Scales `value` by `numerator / denominator` (a zero denominator counts
/// as one), rounding down and capping at `u64::MAX`.
pub fn scale_duration(value: u64, numerator: u64, denominator: u64) -> (r: u64)
    ensures
        r == spec_scale(value as int, numerator as int, denominator as int),
{
    let d: u64 = if denominator < 1 { 1 } else { denominator };
    proof {
        lemma_mul_upper_bound(value as int, u64::MAX as int, numerator as int, u64::MAX as int);
        lemma_mul_nonnegative(value as int, numerator as int);
        lemma_div_pos_is_pos(value as int * numerator as int, d as int);
        lemma_div_is_ordered_by_denominator(value as int * numerator as int, 1, d as int);
    }
    let v = (value as u128) * (numerator as u128) / (d as u128);
    if v > u64::MAX as u128 { u64::MAX } else { v as u64 }
}

/// Source time consumed by `value` target time at `speed`, rounded down.
pub fn apply_ratio_floor(value: u64, speed: &SpeedRatio) -> (r: u64)
    ensures
        r == spec_scale(value as int, speed.numerator as int, speed.denominator as int),
{
    scale_duration(value, speed.numerator as u64, speed.denominator as u64)
}

/// Normal speed.
pub open spec fn is_unity(speed: SpeedRatio) -> bool {
    speed.numerator == speed.denominator
}

/// The `setpts` filter of a constant speed, shifted by `target_delay`.
pub open spec fn constant_setpts_text(speed: SpeedRatio, target_delay: u64) -> Seq<char> {
    let base = if is_unity(speed) {
        "PTS-STARTPTS"@
    } else {
        "(PTS-STARTPTS)*"@ + decimal(speed.denominator as nat) + "/"@ + decimal(speed.numerator as nat)
    };
    if target_delay == 0 {
        "setpts="@ + base
    } else {
        "setpts="@ + base + "+"@ + seconds_text(target_delay) + "/TB"@
    }
}

fn constant_speed_setpts_filter(speed: &SpeedRatio, target_delay: u64) -> (r: String)
    ensures
        r@ == constant_setpts_text(*speed, target_delay),
{
    let mut r = lit("setpts=");
    if speed.numerator == speed.denominator {
        append_str(&mut r, "PTS-STARTPTS");
    } else {
        append_str(&mut r, "(PTS-STARTPTS)*");
        let d = u64_to_decimal(speed.denominator as u64);
        append_string(&mut r, &d);
        append_str(&mut r, "/");
        let n = u64_to_decimal(speed.numerator as u64);
        append_string(&mut r, &n);
    }
    if target_delay != 0 {
        append_str(&mut r, "+");
        let s = format_seconds(target_delay);
        append_string(&mut r, &s);
        append_str(&mut r, "/TB");
    }
    r
}

/// End of the span of curve point `k`: the next point's time, or
/// `u64::MAX` for the last point.
pub open spec fn span_end_time(points: Seq<SpeedCurvePoint>, k: int) -> u64 {
    if k + 1 < points.len() { points[k + 1].target_time } else { u64::MAX }
}

/// Source time reached at the start of curve point `k`.
pub open spec fn source_cursor(points: Seq<SpeedCurvePoint>, k: int) -> int
    decreases k,
{
    if k <= 0 {
        0
    } else {
        let c = source_cursor(points, k - 1);
        let end = span_end_time(points, k - 1);
        if end != u64::MAX {
            let start = points[k - 1].target_time;
            let span = if end >= start { end - start } else { 0 };
            let add = spec_scale(span, points[k - 1].speed.numerator as int, points[k - 1].speed.denominator as int);
            if c + add > u64::MAX { u64::MAX as int } else { c + add }
        } else {
            c
        }
    }
}

/// The time expression of curve point `k`.
pub open spec fn curve_expression(points: Seq<SpeedCurvePoint>, k: int, target_delay: u64) -> Seq<char> {
    seconds_text(points[k].target_time) + "+(T-"@ + seconds_text(source_cursor(points, k) as u64) + ")*"@
        + decimal(points[k].speed.denominator as nat) + "/"@ + decimal(points[k].speed.numerator as nat)
        + "+"@ + seconds_text(target_delay)
}

/// Branch `k` of the nested expression: a bounded point opens an `if`.
pub open spec fn curve_branch(points: Seq<SpeedCurvePoint>, k: int, target_delay: u64) -> Seq<char> {
    if span_end_time(points, k) == u64::MAX {
        curve_expression(points, k, target_delay)
    } else {
        "if(lt(T,"@ + seconds_text(source_cursor(points, k + 1) as u64) + "),"@ + curve_expression(points, k, target_delay) + ","@
    }
}

/// Branches `k..` nested: each branch wraps the rest and closes it.
pub open spec fn nested_branches(points: Seq<SpeedCurvePoint>, k: int, target_delay: u64) -> Seq<char>
    decreases points.len() - k,
{
    if k >= points.len() - 1 {
        curve_branch(points, k, target_delay)
    } else {
        curve_branch(points, k, target_delay) + nested_branches(points, k + 1, target_delay) + ")"@
    }
}

/// The `setpts` filter of a speed curve, shifted by `target_delay`.
pub open spec fn curve_setpts_text(points: Seq<SpeedCurvePoint>, target_delay: u64) -> Seq<char> {
    if points.len() == 0 {
        constant_setpts_text(SpeedRatio { numerator: 1, denominator: 1 }, target_delay)
    } else {
        "setpts="@ + nested_branches(points, 0, target_delay) + "/TB"@
    }
}

proof fn lemma_source_cursor_bound(points: Seq<SpeedCurvePoint>, k: int)
    ensures
        0 <= source_cursor(points, k) <= u64::MAX,
    decreases k,
{
    if k > 0 {
        lemma_source_cursor_bound(points, k - 1);
        let end = span_end_time(points, k - 1);
        if end != u64::MAX {
            let start = points[k - 1].target_time;
            let span = if end >= start { end - start } else { 0 };
            lemma_scale_bound(span, points[k - 1].speed.numerator as int, points[k - 1].speed.denominator as int);
        }
    }
}

proof fn lemma_scale_bound(value: int, numerator: int, denominator: int)
    requires
        value >= 0,
        numerator >= 0,
    ensures
        0 <= spec_scale(value, numerator, denominator) <= u64::MAX,
{
    let d = if denominator < 1 { 1 } else { denominator };
    lemma_mul_nonnegative(value, numerator);
    lemma_div_pos_is_pos(value * numerator, d);
}

fn speed_curve_setpts_filter(points: &Vec<SpeedCurvePoint>, target_delay: u64) -> (r: String)
    ensures
        r@ == curve_setpts_text(points@, target_delay),
{
    if points.len() == 0 {
        return constant_speed_setpts_filter(&SpeedRatio::one(), target_delay);
    }
    let ghost ps = points@;
    let mut cursor: u64 = 0;
    let mut branches: Vec<String> = Vec::new();
    let mut k: usize = 0;
    while k < points.len()
        invariant
            ps == points@,
            k <= ps.len(),
            cursor as int == source_cursor(ps, k as int),
            branches@.len() == k,
            forall|q: int| 0 <= q < k ==> (#[trigger] branches@[q])@ == curve_branch(ps, q, target_delay),
        decreases ps.len() - k,
    {
        let point = points[k];
        let target_end: u64 = if k + 1 < points.len() { points[k + 1].target_time } else { u64::MAX };
        let source_start = cursor;
        proof {
            lemma_source_cursor_bound(ps, k + 1);
        }
        if target_end != u64::MAX {
            let span: u64 = if target_end >= point.target_time { target_end - point.target_time } else { 0 };
            cursor = cursor.saturating_add(apply_ratio_floor(span, &point.speed));
        }
        let mut expression = format_seconds(point.target_time);
        append_str(&mut expression, "+(T-");
        let start_text = format_seconds(source_start);
        append_string(&mut expression, &start_text);
        append_str(&mut expression, ")*");
        let den = u64_to_decimal(point.speed.denominator as u64);
        append_string(&mut expression, &den);
        append_str(&mut expression, "/");
        let num = u64_to_decimal(point.speed.numerator as u64);
        append_string(&mut expression, &num);
        append_str(&mut expression, "+");
        let delay_text = format_seconds(target_delay);
        append_string(&mut expression, &delay_text);
        let branch = if target_end == u64::MAX {
            expression
        } else {
            let mut b = lit("if(lt(T,");
            let cursor_text = format_seconds(cursor);
            append_string(&mut b, &cursor_text);
            append_str(&mut b, "),");
            append_string(&mut b, &expression);
            append_str(&mut b, ",");
            b
        };
        let ghost old_branches = branches@;
        branches.push(branch);
        proof {
            assert forall|q: int| 0 <= q < k + 1 implies (#[trigger] branches@[q])@ == curve_branch(ps, q, target_delay) by {
                if q < k {
                    assert(branches@[q] == old_branches[q]);
                }
            }
        }
        k = k + 1;
    }
    let n = branches.len();
    let mut expression = branches[n - 1].clone();
    let mut j: usize = n - 1;
    while j > 0
        invariant
            n == ps.len(),
            n >= 1,
            j < n,
            branches@.len() == n,
            forall|q: int| 0 <= q < n ==> (#[trigger] branches@[q])@ == curve_branch(ps, q, target_delay),
            expression@ == nested_branches(ps, j as int, target_delay),
        decreases j,
    {
        let mut e = branches[j - 1].clone();
        append_string(&mut e, &expression);
        append_str(&mut e, ")");
        expression = e;
        j = j - 1;
    }
    let mut r = lit("setpts=");
    append_string(&mut r, &expression);
    append_str(&mut r, "/TB");
    r
}

/// What retiming a render intent asks of a segment.
#[derive(Debug, Clone)]
pub struct RenderRetimeAudio {
    pub support: RenderIntentSupport,
    pub reason: String,
    pub follow_speed: bool,
    pub policy: AudioRetimePolicy,
}

/// Retiming of a segment in the render graph.
#[derive(Debug, Clone)]
pub struct RenderRetimeIntent {
    pub retiming: SegmentRetiming,
    pub support: RenderIntentSupport,
    pub audio: RenderRetimeAudio,
    pub source_mapping: RenderRetimeSourceMapping,
}

/// The video `setpts` filter of a retimed segment shifted by `target_delay`.
pub open spec fn video_retime_text(retiming: SegmentRetiming, target_delay: u64) -> Seq<char> {
    match retiming.mode {
        RetimeMode::Constant { speed } => constant_setpts_text(speed, target_delay),
        RetimeMode::SpeedCurve { points } => curve_setpts_text(points@, target_delay),
    }
}

/// The video filters of a retimed segment: one `setpts`.
pub fn compile_video_retime_filters(retime: &RenderRetimeIntent, target_delay: u64) -> (r: Vec<String>)
    ensures
        r@.len() == 1,
        r@[0]@ == video_retime_text(retime.retiming, target_delay),
{
    let f = match &retime.retiming.mode {
        RetimeMode::Constant { speed } => constant_speed_setpts_filter(speed, target_delay),
        RetimeMode::SpeedCurve { points } => speed_curve_setpts_filter(points, target_delay),
    };
    let mut v: Vec<String> = Vec::new();
    v.push(f);
    v
}

/// A diagnostic about a segment's audio mix.
#[derive(Debug, Clone)]
pub struct RenderAudioMixDiagnostic {
    pub track_id: String,
    pub segment_id: String,
    pub material_id: String,
    pub property: String,
    pub support: RenderIntentSupport,
    pub reason: String,
}

/// Audio filters and diagnostics of a retimed segment.
#[derive(Debug, Clone)]
pub struct CompiledAudioRetimeFilters {
    pub filters: Vec<String>,
    pub diagnostics: Vec<RenderAudioMixDiagnostic>,
}

fn retime_audio_diagnostic(
    track_id: &String,
    segment_id: &String,
    material_id: &String,
    support: RenderIntentSupport,
    reason: String,
) -> (d: RenderAudioMixDiagnostic)
    ensures
        d.track_id == *track_id && d.segment_id == *segment_id && d.material_id == *material_id,
        d.property@ == "retime.audio"@,
        d.support == support,
        d.reason == reason,
{
    RenderAudioMixDiagnostic {
        track_id: track_id.clone(),
        segment_id: segment_id.clone(),
        material_id: material_id.clone(),
        property: lit("retime.audio"),
        support,
        reason,
    }
}

/// How a segment's audio is retimed.
pub enum AudioRetimeOutcome {
    /// Audio is reported and left alone.
    Unsupported,
    /// Audio keeps its tempo.
    Untouched,
    /// Audio follows a constant non-unit speed with a tempo chain.
    Tempo,
    /// Speed-curve audio is reported as degraded.
    CurveDeferred,
}

/// Which of the audio outcomes applies to a retime intent.
pub open spec fn audio_retime_outcome(retime: RenderRetimeIntent) -> AudioRetimeOutcome {
    if retime.audio.support == RenderIntentSupport::Unsupported {
        AudioRetimeOutcome::Unsupported
    } else if !retime.audio.follow_speed || retime.audio.policy != AudioRetimePolicy::FollowVideoSpeed {
        AudioRetimeOutcome::Untouched
    } else {
        match retime.retiming.mode {
            RetimeMode::Constant { speed } => if is_unity(speed) {
                AudioRetimeOutcome::Untouched
            } else {
                AudioRetimeOutcome::Tempo
            },
            RetimeMode::SpeedCurve { .. } => AudioRetimeOutcome::CurveDeferred,
        }
    }
}

/// The audio filters of a retimed segment. An unsupported intent gives its
/// diagnostic; audio that does not follow the speed, or plays at normal
/// speed, gets nothing; a constant speed gets `tempo_filters` (the tempo
/// chain of that speed); a speed curve is reported as deferred.
pub fn compile_audio_retime_filters(
    track_id: &String,
    segment_id: &String,
    material_id: &String,
    retime: &RenderRetimeIntent,
    tempo_filters: Vec<String>,
) -> (r: CompiledAudioRetimeFilters)
    ensures
        match audio_retime_outcome(*retime) {
            AudioRetimeOutcome::Unsupported => r.filters@.len() == 0 && r.diagnostics@.len() == 1
                && r.diagnostics@[0].support == retime.audio.support && r.diagnostics@[0].reason == retime.audio.reason
                && r.diagnostics@[0].property@ == "retime.audio"@ && r.diagnostics@[0].track_id == *track_id
                && r.diagnostics@[0].segment_id == *segment_id && r.diagnostics@[0].material_id == *material_id,
            AudioRetimeOutcome::Untouched => r.filters@.len() == 0 && r.diagnostics@.len() == 0,
            AudioRetimeOutcome::Tempo => r.filters@ == tempo_filters@ && r.diagnostics@.len() == 0,
            AudioRetimeOutcome::CurveDeferred => r.filters@.len() == 0 && r.diagnostics@.len() == 1
                && r.diagnostics@[0].support == RenderIntentSupport::Degraded
                && r.diagnostics@[0].reason@ == "speed-curve audio retime is typed in the render graph but dynamic atempo export is deferred"@
                && r.diagnostics@[0].property@ == "retime.audio"@ && r.diagnostics@[0].track_id == *track_id
                && r.diagnostics@[0].segment_id == *segment_id && r.diagnostics@[0].material_id == *material_id,
        },
{
    if retime.audio.support == RenderIntentSupport::Unsupported {
        let mut diagnostics: Vec<RenderAudioMixDiagnostic> = Vec::new();
        diagnostics.push(retime_audio_diagnostic(track_id, segment_id, material_id, retime.audio.support, retime.audio.reason.clone()));
        return CompiledAudioRetimeFilters { filters: Vec::new(), diagnostics };
    }
    if !retime.audio.follow_speed || retime.audio.policy != AudioRetimePolicy::FollowVideoSpeed {
        return CompiledAudioRetimeFilters { filters: Vec::new(), diagnostics: Vec::new() };
    }
    match &retime.retiming.mode {
        RetimeMode::Constant { speed } => {
            if speed.numerator == speed.denominator {
                CompiledAudioRetimeFilters { filters: Vec::new(), diagnostics: Vec::new() }
            } else {
                CompiledAudioRetimeFilters { filters: tempo_filters, diagnostics: Vec::new() }
            }
        },
        RetimeMode::SpeedCurve { .. } => {
            let mut diagnostics: Vec<RenderAudioMixDiagnostic> = Vec::new();
            diagnostics.push(retime_audio_diagnostic(track_id, segment_id, material_id, RenderIntentSupport::Degraded,
                lit("speed-curve audio retime is typed in the render graph but dynamic atempo export is deferred")));
            CompiledAudioRetimeFilters { filters: Vec::new(), diagnostics }
        },
    }
}

/// Where a retimed segment sits on the timeline and which source range
/// it plays.
#[derive(Debug, Clone, Copy)]
pub struct RenderRetimeSourceMapping {
    pub target_timerange: TargetTimerange,
    pub retimed_source_timerange: SourceTimerange,
}

/// The source range a retimed segment contributes to an output window:
/// the whole retimed range when the segment lies inside the window, the
/// proportional part when the window cuts it, none when they do not meet
/// or a range end overflows.
pub open spec fn retimed_source_for_output(m: RenderRetimeSourceMapping, output: TargetTimerange) -> Option<SourceTimerange> {
    let ts = m.target_timerange.start as int;
    let te = ts + m.target_timerange.duration;
    let os = output.start as int;
    let oe = os + output.duration;
    let active_start = if ts >= os { ts } else { os };
    let active_end = if te <= oe { te } else { oe };
    if te > u64::MAX || oe > u64::MAX || active_start >= active_end {
        None
    } else if active_start == ts && active_end == te {
        Some(m.retimed_source_timerange)
    } else {
        let target_duration = if m.target_timerange.duration < 1 { 1 } else { m.target_timerange.duration as int };
        let source_duration = m.retimed_source_timerange.duration as int;
        let offset = spec_scale(active_start - ts, source_duration, target_duration);
        let duration = spec_scale(active_end - active_start, source_duration, target_duration);
        if m.retimed_source_timerange.start + offset > u64::MAX {
            None
        } else {
            Some(SourceTimerange { start: (m.retimed_source_timerange.start + offset) as u64, duration: duration as u64 })
        }
    }
}

/// The part of a retimed segment's source range an output window shows.
pub fn retimed_source_timerange_for_output(mapping: &RenderRetimeSourceMapping, output: &TargetTimerange) -> (r: Option<SourceTimerange>)
    ensures
        r == retimed_source_for_output(*mapping, *output),
{
    let target_start = mapping.target_timerange.start;
    if mapping.target_timerange.duration > u64::MAX - target_start {
        return None;
    }
    let target_end = target_start + mapping.target_timerange.duration;
    let output_start = output.start;
    if output.duration > u64::MAX - output_start {
        return None;
    }
    let output_end = output_start + output.duration;
    let active_start = if target_start >= output_start { target_start } else { output_start };
    let active_end = if target_end <= output_end { target_end } else { output_end };
    if active_start >= active_end {
        return None;
    }
    if active_start == target_start && active_end == target_end {
        return Some(mapping.retimed_source_timerange);
    }
    let active_duration = active_end - active_start;
    let target_duration: u64 = if mapping.target_timerange.duration < 1 { 1 } else { mapping.target_timerange.duration };
    let source_duration = mapping.retimed_source_timerange.duration;
    let source_offset = scale_duration(active_start - target_start, source_duration, target_duration);
    let duration = scale_duration(active_duration, source_duration, target_duration);
    if source_offset > u64::MAX - mapping.retimed_source_timerange.start {
        return None;
    }
    Some(SourceTimerange::new(mapping.retimed_source_timerange.start + source_offset, duration))
}

proof fn lemma_curve_sum_next_point(points: Seq<SpeedCurvePoint>, k: int, i: int)
    requires
        curve_valid(points),
        1 <= k < points.len(),
        0 <= i <= k - 1,
    ensures
        curve_sum(points, points[k].target_time as int, false, i) == curve_sum(points, points[k - 1].target_time as int, false, i)
            + ratio_value(points[k].target_time - points[k - 1].target_time, points[k - 1].speed, false),
    decreases k - 1 - i,
{
    let tk = points[k].target_time as int;
    let tp = points[k - 1].target_time as int;
    assert(points[i].target_time < points[k].target_time);
    if i == k - 1 {
        assert(span_end(points, i, tk) == tk);
        assert(curve_sum(points, tk, false, k) == 0);
        assert(curve_sum(points, tp, false, i) == 0);
    } else {
        assert(points[i + 1].target_time < points[k].target_time);
        assert(points[i].target_time < points[k - 1].target_time);
        assert(span_end(points, i, tk) == points[i + 1].target_time);
        if i + 1 < k - 1 {
            assert(points[i + 1].target_time < points[k - 1].target_time);
        }
        assert(span_end(points, i, tp) == points[i + 1].target_time);
        lemma_curve_sum_next_point(points, k, i + 1);
    }
}

/// Each branch of a speed curve's `setpts` expression starts from the
/// source time of all earlier spans: the source cursor at a point is the
/// source offset the engine maps that point's target time to (each
/// earlier span's length times its speed, rounded down, summed), capped
/// at `u64::MAX`.
pub proof fn law_curve_cursor_is_source_offset(points: Seq<SpeedCurvePoint>, k: int)
    requires
        curve_valid(points),
        0 <= k < points.len(),
        points[k].target_time < u64::MAX,
    ensures
        ({
            let s = curve_sum(points, points[k].target_time as int, false, 0);
            source_cursor(points, k) == if s > u64::MAX { u64::MAX as int } else { s }
        }),
    decreases k,
{
    if k == 0 {
        assert(curve_sum(points, points[0].target_time as int, false, 0) == 0);
    } else {
        assert(points[k - 1].target_time < points[k].target_time);
        law_curve_cursor_is_source_offset(points, k - 1);
        lemma_source_cursor_bound(points, k - 1);
        lemma_curve_sum_next_point(points, k, 0);
        let sp = points[k - 1].speed;
        let span = points[k].target_time - points[k - 1].target_time;
        assert(span >= 0);
        lemma_mul_nonnegative(span, sp.numerator as int);
        lemma_div_pos_is_pos(span * sp.numerator as int, sp.denominator as int);
        assert(span_end_time(points, k - 1) == points[k].target_time);
    }
}

} // verus!
