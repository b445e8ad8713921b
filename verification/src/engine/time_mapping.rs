//! Retime source mapping: which source (material) time is shown at a given
//! target (timeline) offset of a segment, for constant speeds and speed
//! curves, in exact integer microseconds.
use vstd::prelude::*;
use vstd::arithmetic::div_mod::*;
use vstd::arithmetic::mul::*;

use crate::engine::error::{EngineError, EngineErrorKind};
use crate::engine::model::{AudioRetimePolicy, RetimeMode, SegmentRetiming, SourceTimerange, SpeedCurvePoint, SpeedRatio};
use crate::text::{append_str, append_string, decimal, lit, u64_to_decimal};

verus! {

// ---------------------------------------------------------------------------
// Specification
// ---------------------------------------------------------------------------

/// `d * speed`, rounded down, or up when `ceil`.
pub open spec fn ratio_value(d: int, s: SpeedRatio, ceil: bool) -> int {
    let n = d * (s.numerator as int);
    let den = s.denominator as int;
    if ceil {
        (n + den - 1) / den
    } else {
        n / den
    }
}

pub open spec fn speed_nonzero(s: SpeedRatio) -> bool {
    s.numerator != 0 && s.denominator != 0
}

/// Outcome of converting a target duration through a speed ratio.
pub open spec fn ratio_result(d: int, s: SpeedRatio, ceil: bool) -> Result<int, EngineErrorKind> {
    if !speed_nonzero(s) {
        Err(EngineErrorKind::DraftValidationFailed)
    } else if ratio_value(d, s, ceil) > u64::MAX {
        Err(EngineErrorKind::TimerangeOverflow)
    } else {
        Ok(ratio_value(d, s, ceil))
    }
}

/// A well-formed speed curve: starts at target time 0, has only nonzero
/// speeds, and strictly increasing target times.
pub open spec fn curve_valid(points: Seq<SpeedCurvePoint>) -> bool {
    &&& points.len() > 0
    &&& points[0].target_time == 0
    &&& forall|i: int| 0 <= i < points.len() ==> speed_nonzero(#[trigger] points[i].speed)
    &&& forall|i: int, j: int|
        0 <= i < j < points.len() ==> #[trigger] points[i].target_time
            < #[trigger] points[j].target_time
}

/// End of the span that starts at point `i`, cut at target offset `t`.
pub open spec fn span_end(points: Seq<SpeedCurvePoint>, i: int, t: int) -> int {
    if i + 1 < points.len() {
        if points[i + 1].target_time < t {
            points[i + 1].target_time as int
        } else {
            t
        }
    } else {
        t
    }
}

/// Source time covered by the spans from point `i` on, up to target offset `t`:
/// each span contributes its length times its speed.
pub open spec fn curve_sum(points: Seq<SpeedCurvePoint>, t: int, ceil: bool, i: int) -> int
    decreases points.len() - i,
{
    if i < 0 || i >= points.len() || t <= points[i].target_time {
        0
    } else {
        ratio_value(span_end(points, i, t) - points[i].target_time, points[i].speed, ceil)
            + curve_sum(points, t, ceil, i + 1)
    }
}

/// Outcome of mapping a target offset to a source offset under a retime mode.
pub open spec fn offset_result(mode: RetimeMode, t: int, ceil: bool) -> Result<int, EngineErrorKind> {
    match mode {
        RetimeMode::Constant { speed } => ratio_result(t, speed, ceil),
        RetimeMode::SpeedCurve { points } => {
            if !curve_valid(points@) {
                Err(EngineErrorKind::DraftValidationFailed)
            } else if curve_sum(points@, t, ceil, 0) > u64::MAX {
                Err(EngineErrorKind::TimerangeOverflow)
            } else {
                Ok(curve_sum(points@, t, ceil, 0))
            }
        },
    }
}

/// Outcome of looking up the source position shown at target offset `t`.
pub open spec fn source_position_result(
    range: SourceTimerange,
    mode: RetimeMode,
    t: int,
) -> Result<int, EngineErrorKind> {
    match offset_result(mode, t, false) {
        Err(k) => Err(k),
        Ok(off) => {
            if range.start + off > u64::MAX {
                Err(EngineErrorKind::TimerangeOverflow)
            } else if range.start + range.duration > u64::MAX {
                Err(EngineErrorKind::TimerangeOverflow)
            } else if off > range.duration {
                Err(EngineErrorKind::SourceRangeExceedsMaterialDuration)
            } else {
                Ok(range.start + off)
            }
        },
    }
}

/// Outcome of computing the source duration consumed by a target duration `t`.
pub open spec fn retimed_duration_result(
    range: SourceTimerange,
    mode: RetimeMode,
    t: int,
) -> Result<int, EngineErrorKind> {
    match offset_result(mode, t, true) {
        Err(k) => Err(k),
        Ok(dur) => {
            if range.start + range.duration > u64::MAX {
                Err(EngineErrorKind::TimerangeOverflow)
            } else if range.start + dur > u64::MAX {
                Err(EngineErrorKind::TimerangeOverflow)
            } else if dur > range.duration {
                Err(EngineErrorKind::SourceRangeExceedsMaterialDuration)
            } else {
                Ok(dur)
            }
        },
    }
}

/// An executable result agrees with a specified outcome.
pub open spec fn agrees(r: Result<u64, EngineError>, s: Result<int, EngineErrorKind>) -> bool {
    match r {
        Ok(v) => s == Ok::<int, EngineErrorKind>(v as int),
        Err(e) => s == Err::<int, EngineErrorKind>(e.kind),
    }
}

/// Every speed of the mode is exactly 1.
pub open spec fn spec_is_effectively_1x(mode: RetimeMode) -> bool {
    match mode {
        RetimeMode::Constant { speed } => speed.numerator == speed.denominator,
        RetimeMode::SpeedCurve { points } => points_all_unity(points@),
    }
}

/// Every point of a speed curve has speed exactly 1.
pub open spec fn points_all_unity(points: Seq<SpeedCurvePoint>) -> bool {
    forall|i: int| 0 <= i < points.len() ==> #[trigger] points[i].speed.numerator == points[i].speed.denominator
}

// ---------------------------------------------------------------------------
// Lemmas
// ---------------------------------------------------------------------------

proof fn lemma_ratio_nonneg(d: int, s: SpeedRatio, ceil: bool)
    requires
        d >= 0,
        s.denominator != 0,
    ensures
        ratio_value(d, s, ceil) >= 0,
{
    lemma_mul_nonnegative(d, s.numerator as int);
    lemma_div_pos_is_pos(d * (s.numerator as int), s.denominator as int);
    lemma_div_pos_is_pos(d * (s.numerator as int) + s.denominator - 1, s.denominator as int);
}

proof fn lemma_ratio_monotone(d1: int, d2: int, s: SpeedRatio, ceil: bool)
    requires
        0 <= d1 <= d2,
        s.denominator != 0,
    ensures
        ratio_value(d1, s, ceil) <= ratio_value(d2, s, ceil),
{
    lemma_mul_inequality(d1, d2, s.numerator as int);
    lemma_div_is_ordered(d1 * (s.numerator as int), d2 * (s.numerator as int), s.denominator as int);
    lemma_div_is_ordered(
        d1 * (s.numerator as int) + s.denominator - 1,
        d2 * (s.numerator as int) + s.denominator - 1,
        s.denominator as int,
    );
}

proof fn lemma_ratio_floor_le_ceil(d: int, s: SpeedRatio)
    requires
        d >= 0,
        s.denominator != 0,
    ensures
        ratio_value(d, s, false) <= ratio_value(d, s, true),
{
    lemma_mul_nonnegative(d, s.numerator as int);
    lemma_div_is_ordered(d * (s.numerator as int), d * (s.numerator as int) + s.denominator - 1, s.denominator as int);
}

proof fn lemma_ratio_unity(d: int, s: SpeedRatio, ceil: bool)
    requires
        d >= 0,
        s.denominator != 0,
        s.numerator == s.denominator,
    ensures
        ratio_value(d, s, ceil) == d,
{
    let den = s.denominator as int;
    lemma_fundamental_div_mod_converse(d * den, den, d, 0);
    lemma_fundamental_div_mod_converse(d * den + den - 1, den, d, den - 1);
}

proof fn lemma_curve_sum_nonneg(points: Seq<SpeedCurvePoint>, t: int, ceil: bool, i: int)
    requires
        curve_valid(points),
    ensures
        curve_sum(points, t, ceil, i) >= 0,
    decreases points.len() - i,
{
    if i < 0 || i >= points.len() || t <= points[i].target_time {
    } else {
        assert(speed_nonzero(points[i].speed));
        if i + 1 < points.len() {
            assert(points[i].target_time < points[i + 1].target_time);
        }
        lemma_ratio_nonneg(span_end(points, i, t) - points[i].target_time, points[i].speed, ceil);
        lemma_curve_sum_nonneg(points, t, ceil, i + 1);
    }
}

proof fn lemma_curve_sum_monotone(points: Seq<SpeedCurvePoint>, t1: int, t2: int, ceil: bool, i: int)
    requires
        curve_valid(points),
        t1 <= t2,
    ensures
        curve_sum(points, t1, ceil, i) <= curve_sum(points, t2, ceil, i),
    decreases points.len() - i,
{
    if i < 0 || i >= points.len() {
    } else if t2 <= points[i].target_time {
    } else if t1 <= points[i].target_time {
        lemma_curve_sum_nonneg(points, t2, ceil, i);
    } else {
        assert(speed_nonzero(points[i].speed));
        if i + 1 < points.len() {
            assert(points[i].target_time < points[i + 1].target_time);
        }
        lemma_ratio_monotone(
            span_end(points, i, t1) - points[i].target_time,
            span_end(points, i, t2) - points[i].target_time,
            points[i].speed,
            ceil,
        );
        lemma_curve_sum_monotone(points, t1, t2, ceil, i + 1);
    }
}

proof fn lemma_curve_sum_floor_le_ceil(points: Seq<SpeedCurvePoint>, t: int, i: int)
    requires
        curve_valid(points),
    ensures
        curve_sum(points, t, false, i) <= curve_sum(points, t, true, i),
    decreases points.len() - i,
{
    if i < 0 || i >= points.len() || t <= points[i].target_time {
    } else {
        assert(speed_nonzero(points[i].speed));
        if i + 1 < points.len() {
            assert(points[i].target_time < points[i + 1].target_time);
        }
        lemma_ratio_floor_le_ceil(span_end(points, i, t) - points[i].target_time, points[i].speed);
        lemma_curve_sum_floor_le_ceil(points, t, i + 1);
    }
}

proof fn lemma_curve_sum_unity(points: Seq<SpeedCurvePoint>, t: int, ceil: bool, i: int)
    requires
        curve_valid(points),
        0 <= i < points.len(),
        forall|k: int| 0 <= k < points.len() ==> #[trigger] points[k].speed.numerator == points[k].speed.denominator,
    ensures
        curve_sum(points, t, ceil, i) == if t <= points[i].target_time { 0 } else { t - points[i].target_time },
    decreases points.len() - i,
{
    if t <= points[i].target_time {
    } else {
        assert(speed_nonzero(points[i].speed));
        assert(points[i].speed.numerator == points[i].speed.denominator);
        if i + 1 < points.len() {
            assert(points[i].target_time < points[i + 1].target_time);
            lemma_curve_sum_unity(points, t, ceil, i + 1);
        } else {
            assert(curve_sum(points, t, ceil, i + 1) == 0);
        }
        lemma_ratio_unity(span_end(points, i, t) - points[i].target_time, points[i].speed, ceil);
        assert(curve_sum(points, t, ceil, i) == ratio_value(span_end(points, i, t) - points[i].target_time, points[i].speed, ceil)
            + curve_sum(points, t, ceil, i + 1));
    }
}

// ---------------------------------------------------------------------------
// Laws
// ---------------------------------------------------------------------------

/// At speed exactly 1 (constant or every curve point), a target offset maps
/// to the same source offset, rounded either way.
pub proof fn law_unity_speed_is_identity(mode: RetimeMode, t: int, ceil: bool)
    requires
        0 <= t <= u64::MAX,
        spec_is_effectively_1x(mode),
        mode matches RetimeMode::Constant { speed } ==> speed.denominator != 0,
        mode matches RetimeMode::SpeedCurve { points } ==> curve_valid(points@),
    ensures
        offset_result(mode, t, ceil) == Ok::<int, EngineErrorKind>(t),
{
    match mode {
        RetimeMode::Constant { speed } => {
            lemma_ratio_unity(t, speed, ceil);
        },
        RetimeMode::SpeedCurve { points } => {
            lemma_curve_sum_unity(points@, t, ceil, 0);
        },
    }
}

/// Source offsets never decrease as the target offset grows.
pub proof fn law_source_offset_monotone(mode: RetimeMode, t1: int, t2: int, ceil: bool)
    requires
        0 <= t1 <= t2,
        offset_result(mode, t1, ceil) is Ok,
        offset_result(mode, t2, ceil) is Ok,
    ensures
        offset_result(mode, t1, ceil)->Ok_0 <= offset_result(mode, t2, ceil)->Ok_0,
{
    match mode {
        RetimeMode::Constant { speed } => {
            lemma_ratio_monotone(t1, t2, speed, ceil);
        },
        RetimeMode::SpeedCurve { points } => {
            lemma_curve_sum_monotone(points@, t1, t2, ceil, 0);
        },
    }
}

/// The source position shown at any target offset within a target duration
/// lies inside the retimed source range computed for that duration.
pub proof fn law_position_within_retimed_range(range: SourceTimerange, mode: RetimeMode, t: int, duration: int)
    requires
        0 <= t <= duration,
        source_position_result(range, mode, t) is Ok,
        retimed_duration_result(range, mode, duration) is Ok,
    ensures
        range.start <= source_position_result(range, mode, t)->Ok_0,
        source_position_result(range, mode, t)->Ok_0 <= range.start
            + retimed_duration_result(range, mode, duration)->Ok_0,
{
    match mode {
        RetimeMode::Constant { speed } => {
            lemma_ratio_nonneg(t, speed, false);
            lemma_ratio_monotone(t, duration, speed, false);
            lemma_ratio_floor_le_ceil(duration, speed);
        },
        RetimeMode::SpeedCurve { points } => {
            lemma_curve_sum_nonneg(points@, t, false, 0);
            lemma_curve_sum_monotone(points@, t, duration, false, 0);
            lemma_curve_sum_floor_le_ceil(points@, duration, 0);
        },
    }
}

// ---------------------------------------------------------------------------
// Executable mapping
// ---------------------------------------------------------------------------

/// Converts a target duration through a speed ratio, rounding down or up.
fn checked_ratio_duration(duration: u64, speed: SpeedRatio, ceil: bool) -> (r: Result<u64, EngineError>)
    ensures
        agrees(r, ratio_result(duration as int, speed, ceil)),
        r matches Err(e) ==> (e.kind == EngineErrorKind::DraftValidationFailed ==> e.message@
            == "speed ratios must use nonzero numerator and denominator"@),
        r matches Err(e) ==> (e.kind == EngineErrorKind::TimerangeOverflow ==> e.message@
            == "retime ratio conversion exceeded u64 microseconds"@),
{
    if speed.numerator == 0 || speed.denominator == 0 {
        return Err(EngineError::new(
            EngineErrorKind::DraftValidationFailed,
            lit("speed ratios must use nonzero numerator and denominator"),
        ));
    }
    proof {
        lemma_mul_upper_bound(duration as int, u64::MAX as int, speed.numerator as int, u32::MAX as int);
    }
    let numerator: u128 = (duration as u128) * (speed.numerator as u128);
    let denominator: u128 = speed.denominator as u128;
    let mapped: u128 = if ceil {
        (numerator + (denominator - 1)) / denominator
    } else {
        numerator / denominator
    };
    if mapped > u64::MAX as u128 {
        return Err(EngineError::new(
            EngineErrorKind::TimerangeOverflow,
            lit("retime ratio conversion exceeded u64 microseconds"),
        ));
    }
    Ok(mapped as u64)
}

fn validate_speed_curve_points(points: &Vec<SpeedCurvePoint>, target_offset: u64) -> (r: Result<(), EngineError>)
    ensures
        r is Ok <==> curve_valid(points@),
        r matches Err(e) ==> e.kind == EngineErrorKind::DraftValidationFailed,
        points@.len() == 0 ==> (r matches Err(e) && e.message@
            == "speed curve retime requires at least one point"@),
        points@.len() > 0 && points@[0].target_time != 0 ==> (r matches Err(e) && e.message@
            == "speed curve first point must be at target time 0us"@),
{
    if points.len() == 0 {
        return Err(EngineError::new(
            EngineErrorKind::DraftValidationFailed,
            lit("speed curve retime requires at least one point"),
        ));
    }
    if points[0].target_time != 0 {
        return Err(EngineError::new(
            EngineErrorKind::DraftValidationFailed,
            lit("speed curve first point must be at target time 0us"),
        ));
    }
    let mut i: usize = 0;
    while i < points.len()
        invariant
            0 <= i <= points@.len(),
            points@.len() > 0,
            points@[0].target_time == 0,
            forall|k: int| 0 <= k < i ==> speed_nonzero(#[trigger] points@[k].speed),
            forall|a: int, b: int|
                0 <= a < b < i ==> #[trigger] points@[a].target_time < #[trigger] points@[b].target_time,
        decreases points@.len() - i,
    {
        let point = points[i];
        if point.speed.numerator == 0 || point.speed.denominator == 0 {
            return Err(EngineError::new(
                EngineErrorKind::DraftValidationFailed,
                lit("speed ratios must use nonzero numerator and denominator"),
            ));
        }
        if i > 0 {
            let previous_time = points[i - 1].target_time;
            if point.target_time <= previous_time {
                proof {
                    assert(!(points@[i - 1].target_time < points@[i as int].target_time));
                }
                return Err(EngineError::new(
                    EngineErrorKind::DraftValidationFailed,
                    lit("speed curve target points must be strictly increasing"),
                ));
            }
        }
        proof {
            assert forall|a: int, b: int|
                0 <= a < b < i + 1 implies #[trigger] points@[a].target_time < #[trigger] points@[b].target_time by {
                if b == i && a < i - 1 {
                    assert(points@[a].target_time < points@[i - 1].target_time);
                }
            }
        }
        i = i + 1;
    }
    if target_offset < points[0].target_time {
        return Err(EngineError::new(
            EngineErrorKind::TimerangeOverflow,
            lit("target offset precedes speed curve start"),
        ));
    }
    Ok(())
}

fn integrate_speed_curve(points: &Vec<SpeedCurvePoint>, target_offset: u64, ceil: bool) -> (r: Result<u64, EngineError>)
    requires
        curve_valid(points@),
    ensures
        agrees(
            r,
            if curve_sum(points@, target_offset as int, ceil, 0) > u64::MAX {
                Err(EngineErrorKind::TimerangeOverflow)
            } else {
                Ok(curve_sum(points@, target_offset as int, ceil, 0))
            },
        ),
{
    let ghost pts = points@;
    let ghost t = target_offset as int;
    let mut source_us: u64 = 0;
    let mut index: usize = 0;
    while index < points.len()
        invariant_except_break
            source_us + curve_sum(pts, t, ceil, index as int) == curve_sum(pts, t, ceil, 0),
        invariant
            pts == points@,
            t == target_offset as int,
            curve_valid(pts),
            0 <= index <= pts.len(),
        ensures
            source_us == curve_sum(pts, t, ceil, 0),
        decreases pts.len() - index,
    {
        let point = points[index];
        if target_offset <= point.target_time {
            break;
        }
        let next_target = if index + 1 < points.len() {
            points[index + 1].target_time
        } else {
            target_offset
        };
        let span_end_us = if next_target < target_offset { next_target } else { target_offset };
        proof {
            if index + 1 < pts.len() {
                assert(pts[index as int].target_time < pts[index + 1].target_time);
            }
            assert(span_end_us == span_end(pts, index as int, t));
            assert(speed_nonzero(pts[index as int].speed));
            lemma_curve_sum_nonneg(pts, t, ceil, index + 1);
        }
        if span_end_us <= point.target_time {
            index = index + 1;
            continue;
        }
        let span = span_end_us - point.target_time;
        let mapped = match checked_ratio_duration(span, point.speed, ceil) {
            Ok(v) => v,
            Err(e) => return Err(e),
        };
        if mapped > u64::MAX - source_us {
            return Err(EngineError::new(
                EngineErrorKind::TimerangeOverflow,
                lit("speed curve source offset overflowed u64 microseconds"),
            ));
        }
        source_us = source_us + mapped;
        if target_offset <= next_target {
            break;
        }
        index = index + 1;
    }
    Ok(source_us)
}

fn source_offset_for_mode(mode: &RetimeMode, target_offset: u64, ceil: bool) -> (r: Result<u64, EngineError>)
    ensures
        agrees(r, offset_result(*mode, target_offset as int, ceil)),
{
    match mode {
        RetimeMode::Constant { speed } => checked_ratio_duration(target_offset, *speed, ceil),
        RetimeMode::SpeedCurve { points } => {
            match validate_speed_curve_points(points, target_offset) {
                Ok(()) => {},
                Err(e) => return Err(e),
            }
            integrate_speed_curve(points, target_offset, ceil)
        },
    }
}

fn exceeds_source_end_message(position: u64, end: u64) -> (r: String)
    ensures
        r@ == "retimed source position "@ + decimal(position as nat) + " exceeds segment source end "@ + decimal(end as nat),
{
    let mut m = lit("retimed source position ");
    let p = u64_to_decimal(position);
    append_string(&mut m, &p);
    append_str(&mut m, " exceeds segment source end ");
    let q = u64_to_decimal(end);
    append_string(&mut m, &q);
    m
}

fn range_end_message(retimed_end: u64, end: u64) -> (r: String)
    ensures
        r@ == "retimed source range ends at "@ + decimal(retimed_end as nat) + " beyond segment source end "@ + decimal(end as nat),
{
    let mut m = lit("retimed source range ends at ");
    let p = u64_to_decimal(retimed_end);
    append_string(&mut m, &p);
    append_str(&mut m, " beyond segment source end ");
    let q = u64_to_decimal(end);
    append_string(&mut m, &q);
    m
}

fn source_timerange_end(source_timerange: &SourceTimerange) -> (r: Result<u64, EngineError>)
    ensures
        match r {
            Ok(v) => v == source_timerange.start + source_timerange.duration,
            Err(e) => e.kind == EngineErrorKind::TimerangeOverflow
                && source_timerange.start + source_timerange.duration > u64::MAX,
        },
{
    if source_timerange.duration > u64::MAX - source_timerange.start {
        return Err(EngineError::new(
            EngineErrorKind::TimerangeOverflow,
            lit("sourceTimerange start + duration overflowed u64 microseconds"),
        ));
    }
    Ok(source_timerange.start + source_timerange.duration)
}

/// Maps target offsets of one segment to source positions.
#[derive(Debug, Clone)]
pub struct SegmentTimeMap<'a> {
    source_timerange: SourceTimerange,
    retiming: &'a SegmentRetiming,
}

impl<'a> SegmentTimeMap<'a> {
    pub closed spec fn spec_source_timerange(&self) -> SourceTimerange {
        self.source_timerange
    }

    pub closed spec fn spec_retiming(&self) -> SegmentRetiming {
        *self.retiming
    }

    pub fn new(source_timerange: &SourceTimerange, retiming: &'a SegmentRetiming) -> (m: Self)
        ensures
            m.spec_source_timerange() == *source_timerange,
            m.spec_retiming() == *retiming,
    {
        SegmentTimeMap { source_timerange: *source_timerange, retiming }
    }

    /// The source position shown `target_offset` microseconds into the
    /// segment: the source start plus the retimed offset (rounded down),
    /// which must not pass the end of the segment's source range.
    pub fn source_at_target(&self, target_offset: u64) -> (r: Result<u64, EngineError>)
        ensures
            agrees(
                r,
                source_position_result(
                    self.spec_source_timerange(),
                    self.spec_retiming().mode,
                    target_offset as int,
                ),
            ),
            ({
                let range = self.spec_source_timerange();
                match offset_result(self.spec_retiming().mode, target_offset as int, false) {
                    Ok(off) => range.start + off <= u64::MAX && range.start + range.duration <= u64::MAX && off > range.duration
                        ==> (r matches Err(e) && e.message@ == "retimed source position "@ + decimal((range.start + off) as nat)
                            + " exceeds segment source end "@ + decimal((range.start + range.duration) as nat)),
                    Err(_) => true,
                }
            }),
    {
        let source_offset = match source_offset_for_mode(&self.retiming.mode, target_offset, false) {
            Ok(v) => v,
            Err(e) => return Err(e),
        };
        if source_offset > u64::MAX - self.source_timerange.start {
            return Err(EngineError::new(
                EngineErrorKind::TimerangeOverflow,
                lit("retimed source position overflowed u64 microseconds"),
            ));
        }
        let source_position = self.source_timerange.start + source_offset;
        let source_end = match source_timerange_end(&self.source_timerange) {
            Ok(v) => v,
            Err(e) => return Err(e),
        };
        if source_position > source_end {
            return Err(EngineError::new(
                EngineErrorKind::SourceRangeExceedsMaterialDuration,
                exceeds_source_end_message(source_position, source_end),
            ));
        }
        Ok(source_position)
    }

    /// The source range consumed by `target_duration` of this segment.
    pub fn source_range_for_target_duration(&self, target_duration: u64) -> (r: Result<SourceTimerange, EngineError>)
        ensures
            retimed_range_agrees(r, self.spec_source_timerange(), self.spec_retiming().mode, target_duration as int),
    {
        retimed_source_range(&self.source_timerange, target_duration, self.retiming)
    }
}

/// An executable retimed range agrees with the specified outcome: same
/// start, specified duration, or the specified error kind.
pub open spec fn retimed_range_agrees(
    r: Result<SourceTimerange, EngineError>,
    range: SourceTimerange,
    mode: RetimeMode,
    t: int,
) -> bool {
    match r {
        Ok(v) => v.start == range.start && retimed_duration_result(range, mode, t)
            == Ok::<int, EngineErrorKind>(v.duration as int),
        Err(e) => retimed_duration_result(range, mode, t) == Err::<int, EngineErrorKind>(e.kind),
    }
}

/// The source position shown at `target_offset` into a segment.
pub fn source_position_for_retime(
    source_timerange: &SourceTimerange,
    target_offset: u64,
    retiming: &SegmentRetiming,
) -> (r: Result<u64, EngineError>)
    ensures
        agrees(r, source_position_result(*source_timerange, retiming.mode, target_offset as int)),
{
    SegmentTimeMap::new(source_timerange, retiming).source_at_target(target_offset)
}

/// The source range consumed by `target_duration` of a segment: same start,
/// retimed duration rounded up, which must fit in the segment's source range.
pub fn retimed_source_range(
    source_timerange: &SourceTimerange,
    target_duration: u64,
    retiming: &SegmentRetiming,
) -> (r: Result<SourceTimerange, EngineError>)
    ensures
        retimed_range_agrees(r, *source_timerange, retiming.mode, target_duration as int),
        match offset_result(retiming.mode, target_duration as int, true) {
            Ok(d) => source_timerange.start + source_timerange.duration <= u64::MAX && source_timerange.start + d <= u64::MAX
                && d > source_timerange.duration
                ==> (r matches Err(e) && e.message@ == "retimed source range ends at "@ + decimal((source_timerange.start + d) as nat)
                    + " beyond segment source end "@ + decimal((source_timerange.start + source_timerange.duration) as nat)),
            Err(_) => true,
        },
{
    let duration = match source_offset_for_mode(&retiming.mode, target_duration, true) {
        Ok(v) => v,
        Err(e) => return Err(e),
    };
    let source_end = match source_timerange_end(source_timerange) {
        Ok(v) => v,
        Err(e) => return Err(e),
    };
    if duration > u64::MAX - source_timerange.start {
        return Err(EngineError::new(
            EngineErrorKind::TimerangeOverflow,
            lit("retimed source range overflowed u64 microseconds"),
        ));
    }
    let retimed_end = source_timerange.start + duration;
    if retimed_end > source_end {
        return Err(EngineError::new(
            EngineErrorKind::SourceRangeExceedsMaterialDuration,
            range_end_message(retimed_end, source_end),
        ));
    }
    Ok(SourceTimerange { start: source_timerange.start, duration })
}

/// Kinds of audio retime diagnostics.
#[derive(Debug, Clone, Copy, PartialEq, Eq, Structural)]
pub enum AudioRetimeDiagnosticKind {
    UnsupportedPitchPreservation,
}

/// A diagnostic about audio retiming that cannot be honoured.
#[derive(Debug, Clone)]
pub struct AudioRetimeDiagnostic {
    pub kind: AudioRetimeDiagnosticKind,
    pub message: String,
}

fn points_are_unity(points: &Vec<SpeedCurvePoint>) -> (r: bool)
    ensures
        r == points_all_unity(points@),
{
    let mut i: usize = 0;
    while i < points.len()
        invariant
            0 <= i <= points@.len(),
            forall|k: int| 0 <= k < i ==> #[trigger] points@[k].speed.numerator == points@[k].speed.denominator,
        decreases points@.len() - i,
    {
        if points[i].speed.numerator != points[i].speed.denominator {
            assert(points@[i as int].speed.numerator != points@[i as int].speed.denominator);
            return false;
        }
        i = i + 1;
    }
    true
}

fn is_effectively_1x(mode: &RetimeMode) -> (r: bool)
    ensures
        r == spec_is_effectively_1x(*mode),
{
    match mode {
        RetimeMode::Constant { speed } => speed.numerator == speed.denominator,
        RetimeMode::SpeedCurve { points } => points_are_unity(points),
    }
}

/// Pitch preservation is only unsupported when the segment is actually
/// sped up or slowed down.
pub fn audio_retime_diagnostic(retiming: &SegmentRetiming) -> (r: Option<AudioRetimeDiagnostic>)
    ensures
        r is Some <==> (retiming.audio_policy == AudioRetimePolicy::PreservePitch
            && !spec_is_effectively_1x(retiming.mode)),
        r matches Some(d) ==> d.kind == AudioRetimeDiagnosticKind::UnsupportedPitchPreservation
            && d.message@ == "preserve-pitch audio retiming is not yet supported for non-1x speed"@,
{
    if retiming.audio_policy != AudioRetimePolicy::PreservePitch || is_effectively_1x(&retiming.mode) {
        return None;
    }
    Some(AudioRetimeDiagnostic {
        kind: AudioRetimeDiagnosticKind::UnsupportedPitchPreservation,
        message: lit("preserve-pitch audio retiming is not yet supported for non-1x speed"),
    })
}

} // verus!
