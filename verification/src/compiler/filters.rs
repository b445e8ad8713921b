//! Building blocks of the FFmpeg filter script: layer sizes and placement,
//! clipping to the output window, colours, audio gain, pan, delays and
//! fades.
use vstd::prelude::*;
use vstd::arithmetic::div_mod::*;
use vstd::arithmetic::mul::*;

use crate::compiler::ass::{ascii_upper, is_hex_digit, sorted_distinct, sorted_distinct_of};
use crate::compiler::ass::{join_strings, joined};
use crate::compiler::effects::{
    compile_audio_retime_filters, compile_video_retime_filters, retimed_source_for_output,
    retimed_source_timerange_for_output, video_retime_text, RenderAudioMixDiagnostic, RenderRetimeIntent,
    audio_retime_outcome, AudioRetimeOutcome,
};
use crate::compiler::job::sanitized;
use crate::engine::model::{MaterialKind, RetimeMode};
use crate::compiler::job::{
    format_seconds, opt_text, seconds_text, FfmpegCompileError, FfmpegCompileErrorKind, FfmpegSidecar,
    RenderFilterIntent, RenderIntentSupport,
};
use crate::engine::keyframes::Keyframe;
use crate::engine::model::{BackgroundFilling, CanvasBackground, RationalFrameRate, SourceTimerange, TargetTimerange};
use crate::order::{
    is_stable_order, key_view, lemma_is_stable_sorted, lemma_stable_order_positions, stable_order, stable_sorted, KeyView,
    SortKey,
};
use crate::engine::text_layout::{is_white_space, char_is_white_space};
use crate::text::{
    append_str, append_string, chars_of, decimal, i64_to_decimal, lit, push_char, signed_decimal, str_eq,
    string_from_chars, strings_view, u64_to_decimal, u64_to_padded_decimal, zero_padded,
};

verus! {

/// Width and height of a layer in pixels.
#[derive(Debug, Clone, Copy, PartialEq, Eq, Structural)]
pub struct LayerDimensions {
    pub width: u32,
    pub height: u32,
}

/// `numerator / denominator` rounded half up; 0 for a zero denominator.
pub open spec fn spec_round_div(numerator: int, denominator: int) -> int {
    if denominator == 0 { 0 } else { (numerator + denominator / 2) / denominator }
}

/// Division rounded half up.
pub fn round_div_u64(numerator: u64, denominator: u64) -> (r: u64)
    requires
        numerator + denominator / 2 <= u64::MAX,
    ensures
        r == spec_round_div(numerator as int, denominator as int),
{
    if denominator == 0 {
        return 0;
    }
    (numerator + denominator / 2) / denominator
}

/// `millis` thousandths of `span`, rounded half up, capped at `u32::MAX`.
pub open spec fn spec_scaled_millis(span: u32, millis: u32) -> u32 {
    let v = spec_round_div((span as int) * (millis as int), 1000);
    (if v > u32::MAX { u32::MAX as int } else { v }) as u32
}

/// `millis` thousandths of `span`, rounded.
pub fn millis_of(span: u32, millis: u32) -> (r: u32)
    ensures
        r == spec_scaled_millis(span, millis),
{
    proof {
        lemma_mul_upper_bound(span as int, u32::MAX as int, millis as int, u32::MAX as int);
        lemma_mul_nonnegative(span as int, millis as int);
    }
    let v = round_div_u64(span as u64 * millis as u64, 1000);
    proof {
        lemma_div_pos_is_pos(span as int * millis as int + 500, 1000);
    }
    if v > u32::MAX as u64 { u32::MAX } else { v as u32 }
}

/// `source * target / reference` rounded, at least 1 and at most `u32::MAX`.
pub open spec fn spec_proportional(source_span: u32, target_span: u32, reference_span: u32) -> u32 {
    let reference = if reference_span < 1 { 1 } else { reference_span as int };
    let v = spec_round_div((source_span as int) * (target_span as int), reference);
    let v1 = if v < 1 { 1 } else { v };
    (if v1 > u32::MAX { u32::MAX as int } else { v1 }) as u32
}

/// A span scaled by `target / reference`, rounded, never zero.
pub fn proportional_dimension(source_span: u32, target_span: u32, reference_span: u32) -> (r: u32)
    ensures
        r == spec_proportional(source_span, target_span, reference_span),
{
    proof {
        lemma_mul_upper_bound(source_span as int, u32::MAX as int, target_span as int, u32::MAX as int);
        lemma_mul_nonnegative(source_span as int, target_span as int);
    }
    let reference: u64 = if reference_span < 1 { 1 } else { reference_span as u64 };
    let v = round_div_u64(source_span as u64 * target_span as u64, reference);
    let v1 = if v < 1 { 1 } else { v };
    if v1 > u32::MAX as u64 { u32::MAX } else { v1 as u32 }
}

/// The largest size with the source's aspect that fits inside the output.
pub open spec fn spec_fit(source: LayerDimensions, output: LayerDimensions) -> LayerDimensions {
    if (output.width as int) * (source.height as int) <= (output.height as int) * (source.width as int) {
        LayerDimensions { width: output.width, height: spec_proportional(source.height, output.width, source.width) }
    } else {
        LayerDimensions { width: spec_proportional(source.width, output.height, source.height), height: output.height }
    }
}

/// The smallest size with the source's aspect that covers the output.
pub open spec fn spec_fill(source: LayerDimensions, output: LayerDimensions) -> LayerDimensions {
    if (output.width as int) * (source.height as int) >= (output.height as int) * (source.width as int) {
        LayerDimensions { width: output.width, height: spec_proportional(source.height, output.width, source.width) }
    } else {
        LayerDimensions { width: spec_proportional(source.width, output.height, source.height), height: output.height }
    }
}

fn cross_products(source: LayerDimensions, output: LayerDimensions) -> (r: (u64, u64))
    ensures
        r.0 == (output.width as int) * (source.height as int),
        r.1 == (output.height as int) * (source.width as int),
{
    proof {
        lemma_mul_upper_bound(output.width as int, u32::MAX as int, source.height as int, u32::MAX as int);
        lemma_mul_upper_bound(output.height as int, u32::MAX as int, source.width as int, u32::MAX as int);
        lemma_mul_nonnegative(output.width as int, source.height as int);
        lemma_mul_nonnegative(output.height as int, source.width as int);
    }
    (output.width as u64 * source.height as u64, output.height as u64 * source.width as u64)
}

/// Size of a layer fitted inside the output.
pub fn fit_dimensions(source: LayerDimensions, output: LayerDimensions) -> (r: LayerDimensions)
    ensures
        r == spec_fit(source, output),
{
    let (a, b) = cross_products(source, output);
    if a <= b {
        LayerDimensions { width: output.width, height: proportional_dimension(source.height, output.width, source.width) }
    } else {
        LayerDimensions { width: proportional_dimension(source.width, output.height, source.height), height: output.height }
    }
}

/// Size of a layer filling the output.
pub fn fill_dimensions(source: LayerDimensions, output: LayerDimensions) -> (r: LayerDimensions)
    ensures
        r == spec_fill(source, output),
{
    let (a, b) = cross_products(source, output);
    if a >= b {
        LayerDimensions { width: output.width, height: proportional_dimension(source.height, output.width, source.width) }
    } else {
        LayerDimensions { width: proportional_dimension(source.width, output.height, source.height), height: output.height }
    }
}

/// Scale of a layer in thousandths.
#[derive(Debug, Clone, Copy, PartialEq, Eq, Structural)]
pub struct SegmentScale {
    pub x_millis: u32,
    pub y_millis: u32,
}

/// Size of a scaled layer, never zero.
pub open spec fn spec_scaled(d: LayerDimensions, scale: SegmentScale) -> LayerDimensions {
    LayerDimensions {
        width: if spec_scaled_millis(d.width, scale.x_millis) < 1 { 1 } else { spec_scaled_millis(d.width, scale.x_millis) },
        height: if spec_scaled_millis(d.height, scale.y_millis) < 1 { 1 } else { spec_scaled_millis(d.height, scale.y_millis) },
    }
}

/// A layer's size after scaling.
pub fn scaled_dimensions(dimensions: LayerDimensions, scale: &SegmentScale) -> (r: LayerDimensions)
    ensures
        r == spec_scaled(dimensions, *scale),
{
    let w = millis_of(dimensions.width, scale.x_millis);
    let h = millis_of(dimensions.height, scale.y_millis);
    LayerDimensions { width: if w < 1 { 1 } else { w }, height: if h < 1 { 1 } else { h } }
}

/// Crop of each edge in thousandths of the source.
#[derive(Debug, Clone, Copy, PartialEq, Eq, Structural)]
pub struct SegmentCrop {
    pub left_millis: u32,
    pub right_millis: u32,
    pub top_millis: u32,
    pub bottom_millis: u32,
}

/// Whether any edge is cropped.
pub fn crop_is_active(crop: &SegmentCrop) -> (r: bool)
    ensures
        r == (crop.left_millis > 0 || crop.right_millis > 0 || crop.top_millis > 0 || crop.bottom_millis > 0),
{
    crop.left_millis > 0 || crop.right_millis > 0 || crop.top_millis > 0 || crop.bottom_millis > 0
}

/// `a - b`, stopping at zero.
pub open spec fn sat_sub(a: int, b: int) -> int {
    if a >= b { a - b } else { 0 }
}

/// Size left after cropping, never zero.
pub open spec fn spec_cropped(source: LayerDimensions, crop: SegmentCrop) -> LayerDimensions {
    let w = sat_sub(sat_sub(source.width as int, spec_scaled_millis(source.width, crop.left_millis) as int),
        spec_scaled_millis(source.width, crop.right_millis) as int);
    let h = sat_sub(sat_sub(source.height as int, spec_scaled_millis(source.height, crop.top_millis) as int),
        spec_scaled_millis(source.height, crop.bottom_millis) as int);
    LayerDimensions { width: (if w < 1 { 1 } else { w }) as u32, height: (if h < 1 { 1 } else { h }) as u32 }
}

/// A layer's size after cropping.
pub fn cropped_dimensions(source: LayerDimensions, crop: &SegmentCrop) -> (r: LayerDimensions)
    ensures
        r == spec_cropped(source, *crop),
{
    let left = millis_of(source.width, crop.left_millis);
    let right = millis_of(source.width, crop.right_millis);
    let top = millis_of(source.height, crop.top_millis);
    let bottom = millis_of(source.height, crop.bottom_millis);
    let w = source.width.saturating_sub(left).saturating_sub(right);
    let h = source.height.saturating_sub(top).saturating_sub(bottom);
    LayerDimensions { width: if w < 1 { 1 } else { w }, height: if h < 1 { 1 } else { h } }
}

/// The size a material is rendered at: its own, at least 1x1 (1 when unknown).
pub fn render_material_dimensions(width: Option<u32>, height: Option<u32>) -> (r: LayerDimensions)
    ensures
        r.width == match width { Some(w) => if w < 1 { 1 } else { w }, None => 1 },
        r.height == match height { Some(h) => if h < 1 { 1 } else { h }, None => 1 },
{
    let w: u32 = match width { Some(w) => w, None => 1 };
    let h: u32 = match height { Some(h) => h, None => 1 };
    LayerDimensions { width: if w < 1 { 1 } else { w }, height: if h < 1 { 1 } else { h } }
}

/// The output size, at least 1x1.
pub fn output_layer_dimensions(width: u32, height: u32) -> (r: LayerDimensions)
    ensures
        r.width == if width < 1 { 1 } else { width },
        r.height == if height < 1 { 1 } else { height },
{
    LayerDimensions { width: if width < 1 { 1 } else { width }, height: if height < 1 { 1 } else { height } }
}

/// Canvas pixel of a position given in thousandths from the centre
/// (-1000 is one edge, 1000 the other), rounded toward zero.
pub open spec fn spec_canvas_pixel(span: u32, value_millis: i32) -> int {
    let p = (span as int) * (1000 + value_millis as int);
    if p >= 0 { p / 2000 } else { -((-p) / 2000) }
}

/// The canvas pixel of a normalized position.
pub fn normalized_millis_to_canvas_pixel(span: u32, value_millis: i32) -> (r: i64)
    requires
        value_millis <= i32::MAX - 1000,
    ensures
        r == spec_canvas_pixel(span, value_millis),
        -0x40_0000_0000_0000 <= r <= 0x40_0000_0000_0000,
{
    let f: i64 = 1000 + value_millis as i64;
    let sp: i64 = span as i64;
    proof {
        assert(-0x7FFF_FFFF_FFFF_FFFF <= sp * f <= 0x7FFF_FFFF_FFFF_FFFF) by (nonlinear_arith)
            requires 0 <= sp <= 0xFFFF_FFFF, -0x8000_0000 + 1000 <= f <= 0x7FFF_FFFF;
        assert(-0x40_0000_0000_0000 * 2000 <= sp * f <= 0x40_0000_0000_0000 * 2000) by (nonlinear_arith)
            requires 0 <= sp <= 0xFFFF_FFFF, -0x8000_0000 + 1000 <= f <= 0x7FFF_FFFF;
    }
    let p: i64 = sp * f;
    if p >= 0 {
        p / 2000
    } else {
        -((-p) / 2000)
    }
}

/// Anchor of a layer in thousandths of its size.
#[derive(Debug, Clone, Copy, PartialEq, Eq, Structural)]
pub struct SegmentAnchor {
    pub x_millis: u32,
    pub y_millis: u32,
}

/// Top-left corner of a placed layer.
#[derive(Debug, Clone, Copy, PartialEq, Eq, Structural)]
pub struct LayerPlacement {
    pub x: i64,
    pub y: i64,
}

/// Where a layer's top-left corner goes: its position on the canvas (y
/// upwards) minus its anchor.
pub open spec fn spec_placement(position_x: i32, position_y: i32, anchor: SegmentAnchor, output: LayerDimensions, layer: LayerDimensions) -> LayerPlacement {
    LayerPlacement {
        x: (spec_canvas_pixel(output.width, position_x) - spec_scaled_millis(layer.width, anchor.x_millis)) as i64,
        y: (spec_canvas_pixel(output.height, -position_y as i32) - spec_scaled_millis(layer.height, anchor.y_millis)) as i64,
    }
}

/// The top-left corner of a layer on the canvas.
pub fn layer_placement(position_x: i32, position_y: i32, anchor: &SegmentAnchor, output: LayerDimensions, layer: LayerDimensions) -> (r: LayerPlacement)
    requires
        position_x <= i32::MAX - 1000,
        position_y >= -(i32::MAX - 1000),
    ensures
        r == spec_placement(position_x, position_y, *anchor, output, layer),
{
    let center_x = normalized_millis_to_canvas_pixel(output.width, position_x);
    let center_y = normalized_millis_to_canvas_pixel(output.height, -position_y);
    LayerPlacement {
        x: center_x - millis_of(layer.width, anchor.x_millis) as i64,
        y: center_y - millis_of(layer.height, anchor.y_millis) as i64,
    }
}

/// The part of a target range inside the output window, relative to the
/// window's start; none when they do not meet or an end overflows.
pub open spec fn spec_active_range(target: TargetTimerange, output: TargetTimerange) -> Option<(u64, u64)> {
    let te = target.start + target.duration;
    let oe = output.start + output.duration;
    let s = if target.start >= output.start { target.start as int } else { output.start as int };
    let e = if te <= oe { te } else { oe };
    if te > u64::MAX || oe > u64::MAX || s >= e {
        None
    } else {
        Some(((s - output.start) as u64, (e - output.start) as u64))
    }
}

/// Where a target range is active within the output window.
pub fn active_target_range(target: &TargetTimerange, output: &TargetTimerange) -> (r: Option<(u64, u64)>)
    ensures
        r == spec_active_range(*target, *output),
{
    if target.duration > u64::MAX - target.start || output.duration > u64::MAX - output.start {
        return None;
    }
    let te = target.start + target.duration;
    let oe = output.start + output.duration;
    let s = if target.start >= output.start { target.start } else { output.start };
    let e = if te <= oe { te } else { oe };
    if s >= e {
        return None;
    }
    Some((s - output.start, e - output.start))
}

/// The source range played while a segment is inside the output window.
pub open spec fn spec_clipped_source(source: SourceTimerange, target: TargetTimerange, output: TargetTimerange) -> Option<SourceTimerange> {
    let te = target.start + target.duration;
    let oe = output.start + output.duration;
    let s = if target.start >= output.start { target.start as int } else { output.start as int };
    let e = if te <= oe { te } else { oe };
    if te > u64::MAX || oe > u64::MAX || s >= e || source.start + (s - target.start) > u64::MAX {
        None
    } else {
        Some(SourceTimerange { start: (source.start + (s - target.start)) as u64, duration: (e - s) as u64 })
    }
}

/// The source range a segment plays inside the output window.
pub fn clipped_source_timerange(source: &SourceTimerange, target: &TargetTimerange, output: &TargetTimerange) -> (r: Option<SourceTimerange>)
    ensures
        r == spec_clipped_source(*source, *target, *output),
{
    if target.duration > u64::MAX - target.start || output.duration > u64::MAX - output.start {
        return None;
    }
    let te = target.start + target.duration;
    let oe = output.start + output.duration;
    let s = if target.start >= output.start { target.start } else { output.start };
    let e = if te <= oe { te } else { oe };
    if s >= e {
        return None;
    }
    let offset = s - target.start;
    if offset > u64::MAX - source.start {
        return None;
    }
    Some(SourceTimerange::new(source.start + offset, e - s))
}

/// How far into the output a segment starts.
pub open spec fn spec_target_delay(target: TargetTimerange, output: TargetTimerange) -> u64 {
    if target.start >= output.start { (target.start - output.start) as u64 } else { 0 }
}

/// Delay of a segment from the start of the output window.
pub fn target_delay_from_output(target: &TargetTimerange, output: &TargetTimerange) -> (r: u64)
    ensures
        r == spec_target_delay(*target, *output),
{
    let s = if target.start >= output.start { target.start } else { output.start };
    s - output.start
}

/// Microseconds as whole milliseconds, rounded up (saturating).
pub open spec fn spec_delay_millis(value: u64) -> u64 {
    ((if value + 999 > u64::MAX { u64::MAX as int } else { value + 999 }) / 1000) as u64
}

/// A delay in milliseconds, rounded up.
pub fn delay_millis(value: u64) -> (r: u64)
    ensures
        r == spec_delay_millis(value),
{
    value.saturating_add(999) / 1000
}

/// The next expected start after walking `k` ranges in `order`, or none
/// once a range leaves a gap, overlaps or runs backwards.
pub open spec fn chain_end(ranges: Seq<(u64, u64)>, order: Seq<int>, k: int) -> Option<u64>
    decreases k,
{
    if k <= 0 {
        Some(0u64)
    } else {
        match chain_end(ranges, order, k - 1) {
            Some(expected) => {
                let r = ranges[order[k - 1]];
                if r.0 != expected || r.1 < r.0 { None } else { Some(r.1) }
            },
            None => None,
        }
    }
}

/// Sort keys of ranges: their starts.
pub open spec fn range_keys(ranges: Seq<(u64, u64)>) -> Seq<KeyView> {
    ranges.map_values(|r: (u64, u64)| (r.0 as int, Seq::<char>::empty(), Seq::<char>::empty()))
}

/// Whether ranges, ordered by start (ties in their order), tile
/// `[0, output_duration)` with no gap or overlap.
pub open spec fn ranges_tile(ranges: Seq<(u64, u64)>, output_duration: u64) -> bool {
    ranges.len() > 0 && chain_end(ranges, stable_sorted(range_keys(ranges)), ranges.len() as int) == Some(output_duration)
}

/// Whether the ranges, ordered by start, tile `[0, output_duration)` with
/// no gap or overlap.
pub fn ranges_cover_output_contiguously(ranges: &Vec<(u64, u64)>, output_duration: u64) -> (r: bool)
    ensures
        r == ranges_tile(ranges@, output_duration),
{
    let mut keys: Vec<SortKey> = Vec::new();
    let mut i: usize = 0;
    while i < ranges.len()
        invariant
            i <= ranges@.len(),
            keys@.len() == i,
            forall|q: int| 0 <= q < i ==> key_view(#[trigger] keys@[q]) == range_keys(ranges@)[q],
        decreases ranges@.len() - i,
    {
        keys.push(SortKey { rank: ranges[i].0, first: String::new(), second: String::new() });
        i = i + 1;
    }
    let order = stable_order(&keys);
    let ghost ov = order@.map_values(|x: usize| x as int);
    proof {
        assert(keys@.map_values(|k: SortKey| key_view(k)) =~= range_keys(ranges@));
        lemma_stable_order_positions(range_keys(ranges@), order@);
    }
    proof {
        assert(is_stable_order(range_keys(ranges@), ov));
        lemma_is_stable_sorted(range_keys(ranges@), ov);
    }
    if ranges.len() == 0 {
        return false;
    }
    let mut expected: u64 = 0;
    let mut k: usize = 0;
    while k < order.len()
        invariant
            ov == order@.map_values(|x: usize| x as int),
            is_stable_order(range_keys(ranges@), ov),
            stable_sorted(range_keys(ranges@)) == ov,
            order@.len() == ranges@.len(),
            ranges@.len() > 0,
            forall|q: int| 0 <= q < order@.len() ==> #[trigger] order@[q] < ranges@.len(),
            k <= order@.len(),
            chain_end(ranges@, ov, k as int) == Some(expected),
        decreases order@.len() - k,
    {
        let (start, end) = ranges[order[k]];
        proof {
            assert(ov[k as int] == order@[k as int] as int);
        }
        if start != expected || end < start {
            proof {
                lemma_chain_end_broken(ranges@, ov, k as int + 1, ranges@.len() as int);
            }
            return false;
        }
        expected = end;
        k = k + 1;
    }
    expected == output_duration
}

proof fn lemma_chain_end_broken(ranges: Seq<(u64, u64)>, order: Seq<int>, k: int, n: int)
    requires
        0 <= k <= n,
        chain_end(ranges, order, k) is None,
    ensures
        chain_end(ranges, order, n) is None,
    decreases n - k,
{
    if k < n {
        lemma_chain_end_broken(ranges, order, k + 1, n);
    }
}

/// Thousandths as a decimal with three places (`1.250`).
pub open spec fn millis_text(millis: u32) -> Seq<char> {
    decimal((millis / 1000) as nat) + seq!['.'] + zero_padded((millis % 1000) as nat, 3)
}

/// Thousandths written as a decimal.
pub fn millis_decimal(millis: u32) -> (r: String)
    ensures
        r@ == millis_text(millis),
{
    let mut r = u64_to_decimal((millis / 1000) as u64);
    push_char(&mut r, '.');
    let frac = u64_to_padded_decimal((millis % 1000) as u64, 3);
    append_string(&mut r, &frac);
    r
}

/// A gain in thousandths as an FFmpeg volume.
pub fn volume_arg(level_millis: u32) -> (r: String)
    ensures
        r@ == millis_text(level_millis),
{
    millis_decimal(level_millis)
}

/// The stereo pan filter of a balance in thousandths (negative is left):
/// the far channel is attenuated by the clamped balance.
pub open spec fn pan_text(balance_millis: i32) -> Seq<char> {
    let c: int = if balance_millis < -1000 { -1000 } else if balance_millis > 1000 { 1000 } else { balance_millis as int };
    let left: int = if c > 0 { 1000 - c } else { 1000 };
    let right: int = if c < 0 { 1000 + c } else { 1000 };
    "pan=stereo|c0="@ + decimal((left / 1000) as nat) + "."@ + zero_padded((left % 1000) as nat, 3)
        + "*c0|c1="@ + decimal((right / 1000) as nat) + "."@ + zero_padded((right % 1000) as nat, 3) + "*c1"@
}

/// The pan filter of a balance.
pub fn pan_filter(balance_millis: i32) -> (r: String)
    ensures
        r@ == pan_text(balance_millis),
{
    let c: i32 = if balance_millis < -1000 { -1000 } else if balance_millis > 1000 { 1000 } else { balance_millis };
    let left: u32 = if c > 0 { (1000 - c) as u32 } else { 1000 };
    let right: u32 = if c < 0 { (1000 + c) as u32 } else { 1000 };
    let mut r = lit("pan=stereo|c0=");
    let l1 = u64_to_decimal((left / 1000) as u64);
    append_string(&mut r, &l1);
    append_str(&mut r, ".");
    let l2 = u64_to_padded_decimal((left % 1000) as u64, 3);
    append_string(&mut r, &l2);
    append_str(&mut r, "*c0|c1=");
    let r1 = u64_to_decimal((right / 1000) as u64);
    append_string(&mut r, &r1);
    append_str(&mut r, ".");
    let r2 = u64_to_padded_decimal((right % 1000) as u64, 3);
    append_string(&mut r, &r2);
    append_str(&mut r, "*c1");
    r
}

/// The frame rate as `numerator/denominator`.
pub fn frame_rate_arg(frame_rate: &RationalFrameRate) -> (r: String)
    ensures
        r@ == decimal(frame_rate.numerator as nat) + "/"@ + decimal(frame_rate.denominator as nat),
{
    let mut r = u64_to_decimal(frame_rate.numerator as u64);
    append_str(&mut r, "/");
    let d = u64_to_decimal(frame_rate.denominator as u64);
    append_string(&mut r, &d);
    r
}

/// A path quoted for a filter argument: backslashes doubled, quotes escaped.
pub open spec fn escaped_path(s: Seq<char>) -> Seq<char>
    decreases s.len(),
{
    if s.len() == 0 {
        Seq::empty()
    } else {
        escaped_path(s.drop_last()) + if s.last() == '\\' {
            seq!['\\', '\\']
        } else if s.last() == '\'' {
            seq!['\\', '\'']
        } else {
            seq![s.last()]
        }
    }
}

/// Escapes a path for use inside a quoted filter argument.
pub fn escape_filter_path(path: &str) -> (r: String)
    ensures
        r@ == escaped_path(path@),
{
    let cs = chars_of(path);
    let mut r = String::new();
    let mut i: usize = 0;
    while i < cs.len()
        invariant
            cs@ == path@,
            i <= cs@.len(),
            r@ == escaped_path(cs@.subrange(0, i as int)),
        decreases cs@.len() - i,
    {
        let c = cs[i];
        proof {
            assert(cs@.subrange(0, i + 1).drop_last() =~= cs@.subrange(0, i as int));
        }
        if c == '\\' {
            push_char(&mut r, '\\');
            push_char(&mut r, '\\');
        } else if c == '\'' {
            push_char(&mut r, '\\');
            push_char(&mut r, '\'');
        } else {
            push_char(&mut r, c);
        }
        proof {
            assert(r@ =~= escaped_path(cs@.subrange(0, i + 1)));
        }
        i = i + 1;
    }
    proof {
        assert(cs@.subrange(0, cs@.len() as int) =~= cs@);
    }
    r
}

/// Index of the first character from `i` on that is not white space.
pub open spec fn first_non_space(s: Seq<char>, i: int) -> int
    decreases s.len() - i,
{
    if i < 0 || i >= s.len() {
        s.len() as int
    } else if !is_white_space(s[i]) {
        i
    } else {
        first_non_space(s, i + 1)
    }
}

/// Index of the last character before `j` that is not white space, or -1.
pub open spec fn last_non_space(s: Seq<char>, j: int) -> int
    decreases j,
{
    if j <= 0 || j > s.len() {
        -1
    } else if !is_white_space(s[j - 1]) {
        j - 1
    } else {
        last_non_space(s, j - 1)
    }
}

/// `s` without leading and trailing white space (`str::trim`).
pub open spec fn trimmed(s: Seq<char>) -> Seq<char> {
    let a = first_non_space(s, 0);
    if a >= s.len() {
        Seq::empty()
    } else {
        s.subrange(a, last_non_space(s, s.len() as int) + 1)
    }
}

/// An FFmpeg colour (`0xRRGGBB`, upper case) from `#rrggbb`, ignoring
/// surrounding white space; none for anything else.
pub open spec fn ffmpeg_color(value: Seq<char>) -> Option<Seq<char>> {
    let t = trimmed(value);
    if t.len() == 7 && t[0] == '#' && (forall|i: int| 1 <= i < 7 ==> #[trigger] is_hex_digit(t[i])) {
        Some(seq!['0', 'x'] + t.drop_first().map_values(|c: char| ascii_upper(c)))
    } else {
        None
    }
}

proof fn lemma_first_non_space(s: Seq<char>, i: int)
    requires
        0 <= i <= s.len(),
    ensures
        i <= first_non_space(s, i) <= s.len(),
        first_non_space(s, i) < s.len() ==> !is_white_space(s[first_non_space(s, i)]),
    decreases s.len() - i,
{
    if i < s.len() && is_white_space(s[i]) {
        lemma_first_non_space(s, i + 1);
    }
}

proof fn lemma_last_non_space(s: Seq<char>, j: int, a: int)
    requires
        0 <= a < j <= s.len(),
        !is_white_space(s[a]),
    ensures
        a <= last_non_space(s, j) < j,
    decreases j,
{
    if is_white_space(s[j - 1]) {
        lemma_last_non_space(s, j - 1, a);
    }
}

/// The FFmpeg form of a `#rrggbb` colour.
pub fn hex_color_to_ffmpeg_arg(value: &str) -> (r: Option<String>)
    ensures
        match r {
            Some(v) => ffmpeg_color(value@) == Some(v@),
            None => ffmpeg_color(value@) is None,
        },
{
    let cs = chars_of(value);
    let ghost s = cs@;
    let n = cs.len();
    let mut a: usize = 0;
    while a < n && char_is_white_space(cs[a])
        invariant
            s == cs@,
            n == s.len(),
            a <= n,
            first_non_space(s, 0) == first_non_space(s, a as int),
        decreases n - a,
    {
        a = a + 1;
    }
    proof {
        lemma_first_non_space(s, 0);
    }
    if a >= n {
        return None;
    }
    let mut b: usize = n;
    while b > a && char_is_white_space(cs[b - 1])
        invariant
            s == cs@,
            n == s.len(),
            a < b <= n,
            !is_white_space(s[a as int]),
            last_non_space(s, n as int) == last_non_space(s, b as int),
        decreases b,
    {
        b = b - 1;
    }
    proof {
        lemma_last_non_space(s, b as int, a as int);
        assert(last_non_space(s, b as int) == b - 1);
        assert(trimmed(s) =~= s.subrange(a as int, b as int));
    }
    if b - a != 7 || cs[a] != '#' {
        return None;
    }
    let mut out: Vec<char> = Vec::new();
    out.push('0');
    out.push('x');
    let mut i: usize = a + 1;
    while i < b
        invariant
            s == cs@,
            s == value@,
            a + 7 == b,
            b <= s.len(),
            a + 1 <= i <= b,
            trimmed(s) == s.subrange(a as int, b as int),
            forall|j: int| a + 1 <= j < i ==> #[trigger] is_hex_digit(s[j]),
            out@ == seq!['0', 'x'] + s.subrange(a + 1, i as int).map_values(|c: char| ascii_upper(c)),
        decreases b - i,
    {
        let c = cs[i];
        if !(('0' <= c && c <= '9') || ('a' <= c && c <= 'f') || ('A' <= c && c <= 'F')) {
            proof {
                let t = trimmed(s);
                assert(t[i - a] == c);
                assert(!is_hex_digit(t[i - a]));
            }
            return None;
        }
        let u = if 'a' <= c && c <= 'f' { hex_upper_letter(c) } else { c };
        out.push(u);
        proof {
            assert(s.subrange(a + 1, i + 1).map_values(|c: char| ascii_upper(c))
                =~= s.subrange(a + 1, i as int).map_values(|c: char| ascii_upper(c)).push(ascii_upper(c)));
        }
        i = i + 1;
    }
    proof {
        let t = trimmed(s);
        assert(t.drop_first() =~= s.subrange(a + 1, b as int));
        assert forall|j: int| 1 <= j < 7 implies #[trigger] is_hex_digit(t[j]) by {
            assert(t[j] == s[a + j]);
        }
    }
    Some(string_from_chars(out.as_slice()))
}

fn hex_upper_letter(c: char) -> (r: char)
    requires
        'a' <= c <= 'f',
    ensures
        r == ascii_upper(c),
{
    if c == 'a' { 'A' } else if c == 'b' { 'B' } else if c == 'c' { 'C' } else if c == 'd' { 'D' } else if c == 'e' { 'E' } else { 'F' }
}

/// The canvas colour as an FFmpeg argument: black unless a valid solid colour.
pub open spec fn canvas_color_text(background: CanvasBackground) -> Seq<char> {
    match background {
        CanvasBackground::SolidColor { color } => match ffmpeg_color(color@) {
            Some(c) => c,
            None => "black"@,
        },
        _ => "black"@,
    }
}

/// The canvas colour argument.
pub fn canvas_background_color_arg(background: &CanvasBackground) -> (r: String)
    ensures
        r@ == canvas_color_text(*background),
{
    match background {
        CanvasBackground::SolidColor { color } => match hex_color_to_ffmpeg_arg(color.as_str()) {
            Some(c) => c,
            None => lit("black"),
        },
        _ => lit("black"),
    }
}

/// The pad colour behind a segment, when its filling is a colour.
pub fn segment_background_color_arg(background: &BackgroundFilling) -> (r: Option<String>)
    ensures
        match *background {
            BackgroundFilling::Black => r matches Some(v) && v@ == "black"@,
            BackgroundFilling::SolidColor { color } => match ffmpeg_color(color@) {
                Some(c) => r matches Some(v) && v@ == c,
                None => r is None,
            },
            _ => r is None,
        },
{
    match background {
        BackgroundFilling::Black => Some(lit("black")),
        BackgroundFilling::SolidColor { color } => hex_color_to_ffmpeg_arg(color.as_str()),
        _ => None,
    }
}

/// An audio effect slot of a segment.
#[derive(Debug, Clone)]
pub struct RenderAudioEffectSlot {
    pub slot_id: String,
    pub name: String,
    pub enabled: bool,
}

/// An audio segment of the render graph.
#[derive(Debug, Clone)]
pub struct RenderAudioMix {
    pub track_id: String,
    pub segment_id: String,
    pub material_id: String,
    pub source_timerange: SourceTimerange,
    pub target_timerange: TargetTimerange,
    pub gain_millis: u32,
    pub pan_balance_millis: i32,
    pub fade_in_duration: u64,
    pub fade_out_duration: u64,
    pub retime: RenderRetimeIntent,
    pub volume_keyframes: Vec<Keyframe>,
    pub effect_slots: Vec<RenderAudioEffectSlot>,
    pub filters: Vec<RenderFilterIntent>,
    /// Whether the render graph classifies the segment as audible.
    pub audible: bool,
}

/// Whether audio is placed on the output timeline or on its own track.
#[derive(Debug, Clone, Copy, PartialEq, Eq, Structural)]
pub enum AudioTimelineAlignment {
    OutputTimeline,
    TrackLocal,
}

/// Audio filters and diagnostics of one segment.
#[derive(Debug, Clone)]
pub struct CompiledAudioMixFilters {
    pub filters: Vec<String>,
    pub diagnostics: Vec<RenderAudioMixDiagnostic>,
}

/// The audio filters of a segment before retiming: trim to the clip,
/// reset timestamps, delay to the output timeline, gain, pan, fades.
pub open spec fn audio_mix_text(audio: RenderAudioMix, clip: SourceTimerange, output: TargetTimerange, alignment: AudioTimelineAlignment) -> Seq<Seq<char>> {
    let delay = spec_target_delay(audio.target_timerange, output);
    let dm = decimal(spec_delay_millis(delay) as nat);
    seq!["atrim=start="@ + seconds_text(clip.start) + ":duration="@ + seconds_text(clip.duration), "asetpts=PTS-STARTPTS"@]
        + (if alignment == AudioTimelineAlignment::OutputTimeline && delay > 0 { seq!["adelay="@ + dm + "|"@ + dm] } else { Seq::empty() })
        + seq!["volume="@ + millis_text(audio.gain_millis)]
        + (if audio.pan_balance_millis != 0 { seq![pan_text(audio.pan_balance_millis)] } else { Seq::empty() })
        + (if audio.fade_in_duration > 0 { seq!["afade=t=in:st=0:d="@ + seconds_text(audio.fade_in_duration)] } else { Seq::empty() })
        + (if audio.fade_out_duration > 0 {
            seq!["afade=t=out:st="@ + seconds_text((if clip.duration >= audio.fade_out_duration { clip.duration - audio.fade_out_duration } else { 0 }) as u64)
                + ":d="@ + seconds_text(audio.fade_out_duration)]
        } else {
            Seq::empty()
        })
}

fn push_text(v: &mut Vec<String>, s: String)
    ensures
        crate::text::strings_view(final(v)@) == crate::text::strings_view(old(v)@).push(s@),
{
    let ghost t = s@;
    v.push(s);
    proof {
        assert(crate::text::strings_view(v@) =~= crate::text::strings_view(old(v)@).push(t));
    }
}

/// The audio filters of a segment, then its retime filters (`tempo_filters`
/// being the tempo chain of its constant speed).
pub fn compile_audio_mix_filters(
    audio: &RenderAudioMix,
    clip: &SourceTimerange,
    output: &TargetTimerange,
    alignment: AudioTimelineAlignment,
    tempo_filters: Vec<String>,
) -> (r: CompiledAudioMixFilters)
    ensures
        crate::text::strings_view(r.filters@) == audio_mix_text(*audio, *clip, *output, alignment) + match audio_retime_outcome(audio.retime) {
            AudioRetimeOutcome::Tempo => crate::text::strings_view(tempo_filters@),
            _ => Seq::empty(),
        },
        match audio_retime_outcome(audio.retime) {
            AudioRetimeOutcome::Unsupported => r.diagnostics@.len() == 1 && r.diagnostics@[0].reason == audio.retime.audio.reason
                && r.diagnostics@[0].support == audio.retime.audio.support,
            AudioRetimeOutcome::CurveDeferred => r.diagnostics@.len() == 1 && r.diagnostics@[0].support == RenderIntentSupport::Degraded
                && r.diagnostics@[0].reason@ == "speed-curve audio retime is typed in the render graph but dynamic atempo export is deferred"@,
            _ => r.diagnostics@.len() == 0,
        },
        forall|k: int| 0 <= k < r.diagnostics@.len() ==> (#[trigger] r.diagnostics@[k]).property@ == "retime.audio"@
            && r.diagnostics@[k].track_id == audio.track_id && r.diagnostics@[k].segment_id == audio.segment_id
            && r.diagnostics@[k].material_id == audio.material_id,
{
    let mut filters: Vec<String> = Vec::new();
    let mut atrim = lit("atrim=start=");
    let s1 = format_seconds(clip.start);
    append_string(&mut atrim, &s1);
    append_str(&mut atrim, ":duration=");
    let s2 = format_seconds(clip.duration);
    append_string(&mut atrim, &s2);
    push_text(&mut filters, atrim);
    push_text(&mut filters, lit("asetpts=PTS-STARTPTS"));
    let delay = target_delay_from_output(&audio.target_timerange, output);
    if alignment == AudioTimelineAlignment::OutputTimeline && delay > 0 {
        let dm = u64_to_decimal(delay_millis(delay));
        let mut f = lit("adelay=");
        append_string(&mut f, &dm);
        append_str(&mut f, "|");
        append_string(&mut f, &dm);
        push_text(&mut filters, f);
    }
    let mut vol = lit("volume=");
    let va = volume_arg(audio.gain_millis);
    append_string(&mut vol, &va);
    push_text(&mut filters, vol);
    if audio.pan_balance_millis != 0 {
        push_text(&mut filters, pan_filter(audio.pan_balance_millis));
    }
    if audio.fade_in_duration > 0 {
        let mut f = lit("afade=t=in:st=0:d=");
        let t = format_seconds(audio.fade_in_duration);
        append_string(&mut f, &t);
        push_text(&mut filters, f);
    }
    if audio.fade_out_duration > 0 {
        let fade_start = clip.duration.saturating_sub(audio.fade_out_duration);
        let mut f = lit("afade=t=out:st=");
        let t1 = format_seconds(fade_start);
        append_string(&mut f, &t1);
        append_str(&mut f, ":d=");
        let t2 = format_seconds(audio.fade_out_duration);
        append_string(&mut f, &t2);
        push_text(&mut filters, f);
    }
    proof {
        assert(crate::text::strings_view(filters@) =~= audio_mix_text(*audio, *clip, *output, alignment));
    }
    let retime = compile_audio_retime_filters(&audio.track_id, &audio.segment_id, &audio.material_id, &audio.retime, tempo_filters);
    let ghost before = filters@;
    let ghost added = retime.filters@;
    let mut extra = retime.filters;
    filters.append(&mut extra);
    proof {
        assert(filters@ == before + added);
        assert(crate::text::strings_view(filters@) =~= crate::text::strings_view(before) + crate::text::strings_view(added));
    }
    CompiledAudioMixFilters { filters, diagnostics: retime.diagnostics }
}

/// Keyframed volume cannot be exported yet.
pub fn reject_unsupported_audio_automation(audio: &RenderAudioMix) -> (r: Result<(), FfmpegCompileError>)
    ensures
        r is Ok <==> audio.volume_keyframes@.len() == 0,
        r matches Err(e) ==> e.kind == FfmpegCompileErrorKind::UnsupportedAudioAutomation
            && e.material_id == Some(audio.material_id)
            && e.message@ == "audio segment "@ + audio.segment_id@ + " contains keyframed volume automation that cannot be compiled safely"@
            && e.remediation@ == "Remove keyframed audio volume automation or compile it into an FFmpeg volume expression before export."@,
{
    if audio.volume_keyframes.len() == 0 {
        return Ok(());
    }
    let mut message = lit("audio segment ");
    append_string(&mut message, &audio.segment_id);
    append_str(&mut message, " contains keyframed volume automation that cannot be compiled safely");
    Err(FfmpegCompileError::new(
        FfmpegCompileErrorKind::UnsupportedAudioAutomation,
        message,
        lit("Remove keyframed audio volume automation or compile it into an FFmpeg volume expression before export."),
    ).with_material_id(audio.material_id.clone()))
}

/// Enabled effect slots among the first `n`, in order.
pub open spec fn enabled_slots(slots: Seq<RenderAudioEffectSlot>, n: int) -> Seq<RenderAudioEffectSlot>
    decreases n,
{
    if n <= 0 {
        Seq::empty()
    } else if slots[n - 1].enabled {
        enabled_slots(slots, n - 1).push(slots[n - 1])
    } else {
        enabled_slots(slots, n - 1)
    }
}

/// The diagnostic of an enabled effect slot.
pub open spec fn slot_diagnostic_matches(d: RenderAudioMixDiagnostic, audio: RenderAudioMix, slot: RenderAudioEffectSlot) -> bool {
    &&& d.track_id == audio.track_id
    &&& d.segment_id == audio.segment_id
    &&& d.material_id == audio.material_id
    &&& d.property@ == "audioEffectSlot."@ + slot.slot_id@
    &&& d.support == RenderIntentSupport::Unsupported
    &&& d.reason@ == "unsupported audio effect slot "@ + slot.name@ + " is preserved for diagnostics"@
}

/// One diagnostic per enabled audio effect slot (none can be exported).
pub fn audio_effect_slot_diagnostics(audio: &RenderAudioMix) -> (r: Vec<RenderAudioMixDiagnostic>)
    ensures
        r@.len() == enabled_slots(audio.effect_slots@, audio.effect_slots@.len() as int).len(),
        forall|k: int| 0 <= k < r@.len() ==> slot_diagnostic_matches(#[trigger] r@[k], *audio,
            enabled_slots(audio.effect_slots@, audio.effect_slots@.len() as int)[k]),
{
    let ghost slots = audio.effect_slots@;
    let mut r: Vec<RenderAudioMixDiagnostic> = Vec::new();
    let mut i: usize = 0;
    while i < audio.effect_slots.len()
        invariant
            slots == audio.effect_slots@,
            i <= slots.len(),
            r@.len() == enabled_slots(slots, i as int).len(),
            forall|k: int| 0 <= k < r@.len() ==> slot_diagnostic_matches(#[trigger] r@[k], *audio, enabled_slots(slots, i as int)[k]),
        decreases slots.len() - i,
    {
        let slot = &audio.effect_slots[i];
        if slot.enabled {
            let mut property = lit("audioEffectSlot.");
            append_string(&mut property, &slot.slot_id);
            let mut reason = lit("unsupported audio effect slot ");
            append_string(&mut reason, &slot.name);
            append_str(&mut reason, " is preserved for diagnostics");
            let ghost old_r = r@;
            r.push(RenderAudioMixDiagnostic {
                track_id: audio.track_id.clone(),
                segment_id: audio.segment_id.clone(),
                material_id: audio.material_id.clone(),
                property,
                support: RenderIntentSupport::Unsupported,
                reason,
            });
            proof {
                assert forall|k: int| 0 <= k < r@.len() implies slot_diagnostic_matches(#[trigger] r@[k], *audio, enabled_slots(slots, i + 1)[k]) by {
                    if k < old_r.len() {
                        assert(r@[k] == old_r[k]);
                    }
                }
            }
        }
        i = i + 1;
    }
    r
}

proof fn lemma_round_div_le(x: int, y: int, z: int)
    requires
        y >= 1,
        x >= 0,
        z >= 0,
        x <= z * y,
    ensures
        spec_round_div(x, y) <= z,
{
    lemma_div_is_ordered(x + y / 2, z * y + y / 2, y);
    lemma_fundamental_div_mod_converse(z * y + y / 2, y, z, y / 2);
}

proof fn lemma_round_div_ge(x: int, y: int, z: int)
    requires
        y >= 1,
        z >= 0,
        x >= z * y,
    ensures
        spec_round_div(x, y) >= z,
{
    lemma_div_is_ordered(z * y, x + y / 2, y);
    lemma_div_multiples_vanish(z, y);
    lemma_mul_is_commutative(z, y);
}

/// Fitting keeps a layer inside the output and touches two opposite edges;
/// filling covers the output and matches one of its sides.
pub proof fn law_fit_inside_fill_covers(source: LayerDimensions, output: LayerDimensions)
    requires
        source.width >= 1,
        source.height >= 1,
        output.width >= 1,
        output.height >= 1,
    ensures
        spec_fit(source, output).width <= output.width,
        spec_fit(source, output).height <= output.height,
        spec_fit(source, output).width == output.width || spec_fit(source, output).height == output.height,
        spec_fill(source, output).width >= output.width,
        spec_fill(source, output).height >= output.height,
        spec_fill(source, output).width == output.width || spec_fill(source, output).height == output.height,
{
    let sw = source.width as int;
    let sh = source.height as int;
    let ow = output.width as int;
    let oh = output.height as int;
    lemma_mul_nonnegative(sh, ow);
    lemma_mul_nonnegative(sw, oh);
    lemma_mul_is_commutative(sh, ow);
    lemma_mul_is_commutative(sw, oh);
    if ow * sh <= oh * sw {
        lemma_round_div_le(sh * ow, sw, oh);
        lemma_round_div_ge(sh * ow, sw, 0);
    } else {
        lemma_round_div_le(sw * oh, sh, ow);
    }
    if ow * sh >= oh * sw {
        lemma_round_div_ge(sh * ow, sw, oh);
    } else {
        lemma_round_div_ge(sw * oh, sh, ow);
    }
}

/// Characters `start..end` of `cs`.
fn copy_range(cs: &Vec<char>, start: usize, end: usize) -> (r: Vec<char>)
    requires
        start <= end <= cs@.len(),
    ensures
        r@ == cs@.subrange(start as int, end as int),
{
    let mut out: Vec<char> = Vec::new();
    let mut i: usize = start;
    while i < end
        invariant
            start <= i <= end,
            end <= cs@.len(),
            out@ == cs@.subrange(start as int, i as int),
        decreases end - i,
    {
        out.push(cs[i]);
        i = i + 1;
        assert(out@ =~= cs@.subrange(start as int, i as int));
    }
    out
}

/// `t` without surrounding white space.
fn trim_chars(t: &Vec<char>) -> (r: Vec<char>)
    ensures
        r@ == trimmed(t@),
{
    let ghost s = t@;
    let n = t.len();
    let mut a: usize = 0;
    while a < n && char_is_white_space(t[a])
        invariant
            s == t@,
            n == s.len(),
            a <= n,
            first_non_space(s, 0) == first_non_space(s, a as int),
        decreases n - a,
    {
        a = a + 1;
    }
    proof {
        lemma_first_non_space(s, 0);
    }
    if a >= n {
        return Vec::new();
    }
    let mut b: usize = n;
    while b > a && char_is_white_space(t[b - 1])
        invariant
            s == t@,
            n == s.len(),
            a < b <= n,
            !is_white_space(s[a as int]),
            last_non_space(s, n as int) == last_non_space(s, b as int),
        decreases b,
    {
        b = b - 1;
    }
    proof {
        lemma_last_non_space(s, b as int, a as int);
    }
    copy_range(t, a, b)
}

/// The comment that names a sidecar's font file.
pub open spec fn font_path_prefix() -> Seq<char> {
    "; FontPath: "@
}

/// The font path a line names, trimmed, when it is a font path comment.
pub open spec fn line_font_path(line: Seq<char>) -> Option<Seq<char>> {
    let p = font_path_prefix();
    if line.len() >= p.len() && line.subrange(0, p.len() as int) == p {
        Some(trimmed(line.subrange(p.len() as int, line.len() as int)))
    } else {
        None
    }
}

/// The font path named by the first font path comment among the lines of
/// `s`, scanning from position `i` of the line that starts at `start`.
pub open spec fn font_path_scan(s: Seq<char>, start: int, i: int) -> Option<Seq<char>>
    decreases s.len() - i,
{
    if i < 0 || start < 0 || start > i || i >= s.len() {
        if 0 <= start <= s.len() { line_font_path(s.subrange(start, s.len() as int)) } else { None }
    } else if s[i] == '\n' {
        match line_font_path(s.subrange(start, i)) {
            Some(v) => Some(v),
            None => font_path_scan(s, i + 1, i + 1),
        }
    } else {
        font_path_scan(s, start, i + 1)
    }
}

/// The font path of an ASS script: the first `; FontPath: ` line, trimmed.
pub open spec fn sidecar_font_path(contents: Seq<char>) -> Option<Seq<char>> {
    font_path_scan(contents, 0, 0)
}

fn range_font_path(cs: &Vec<char>, start: usize, end: usize) -> (r: Option<Vec<char>>)
    requires
        start <= end <= cs@.len(),
    ensures
        match line_font_path(cs@.subrange(start as int, end as int)) {
            Some(v) => r matches Some(x) && x@ == v,
            None => r is None,
        },
{
    let prefix = chars_of("; FontPath: ");
    proof {
        reveal_strlit("; FontPath: ");
    }
    let ghost line = cs@.subrange(start as int, end as int);
    let plen = prefix.len();
    if end - start < plen {
        return None;
    }
    let mut k: usize = 0;
    while k < plen
        invariant
            prefix@ == font_path_prefix(),
            plen == prefix@.len(),
            start + plen <= end <= cs@.len(),
            line == cs@.subrange(start as int, end as int),
            k <= plen,
            forall|j: int| 0 <= j < k ==> line[j] == prefix@[j],
        decreases plen - k,
    {
        if cs[start + k] != prefix[k] {
            proof {
                assert(line.subrange(0, plen as int)[k as int] != font_path_prefix()[k as int]);
            }
            return None;
        }
        k = k + 1;
    }
    proof {
        assert(line.subrange(0, plen as int) =~= font_path_prefix());
        assert(line.subrange(plen as int, line.len() as int) =~= cs@.subrange(start + plen, end as int));
    }
    let rest = copy_range(cs, start + plen, end);
    Some(trim_chars(&rest))
}

fn scan_font_path(cs: &Vec<char>) -> (r: Option<Vec<char>>)
    ensures
        match sidecar_font_path(cs@) {
            Some(v) => r matches Some(x) && x@ == v,
            None => r is None,
        },
{
    let ghost s = cs@;
    let n = cs.len();
    let mut start: usize = 0;
    let mut i: usize = 0;
    while i < n
        invariant
            s == cs@,
            n == s.len(),
            start <= i <= n,
            font_path_scan(s, 0, 0) == font_path_scan(s, start as int, i as int),
        decreases n - i,
    {
        if cs[i] == '\n' {
            match range_font_path(cs, start, i) {
                Some(v) => return Some(v),
                None => {},
            }
            start = i + 1;
        }
        i = i + 1;
    }
    range_font_path(cs, start, n)
}

/// The parent directory of a path (`Path::parent`), when it has one.
pub uninterp spec fn path_parent_of(path: Seq<char>) -> Option<Seq<char>>;

/// The parent of `path` by `std::path::Path::parent`; the parent of a
/// `&str` path is valid UTF-8, so the lossy conversion keeps it whole.
#[verifier::external_body]
pub(crate) fn path_parent(path: &str) -> (r: Option<String>)
    ensures
        opt_text(r) == path_parent_of(path@),
{
    std::path::Path::new(path).parent().map(|parent| parent.to_string_lossy().into_owned())
}

/// A parent directory that is not empty.
pub open spec fn non_empty_dir_text(parent: Option<Seq<char>>) -> Option<Seq<char>> {
    match parent {
        Some(p) => if p.len() == 0 { None } else { Some(p) },
        None => None,
    }
}

/// Keeps a parent directory unless it is empty.
pub fn non_empty_dir(parent: Option<String>) -> (r: Option<String>)
    ensures
        opt_text(r) == non_empty_dir_text(opt_text(parent)),
{
    match parent {
        Some(p) => {
            proof {
                reveal_strlit("");
                if p@.len() == 0 {
                    assert(p@ =~= ""@);
                }
            }
            if crate::text::str_eq(p.as_str(), "") { None } else { Some(p) }
        },
        None => None,
    }
}

/// The fonts directory of an ASS script: the parent of its font path.
pub open spec fn ass_font_dir_text(contents: Seq<char>) -> Option<Seq<char>> {
    match sidecar_font_path(contents) {
        Some(p) => non_empty_dir_text(path_parent_of(p)),
        None => None,
    }
}

/// The directory of the font an ASS script names, for the subtitles filter.
pub fn ass_font_dir(contents: &str) -> (r: Option<String>)
    ensures
        opt_text(r) == ass_font_dir_text(contents@),
{
    let cs = chars_of(contents);
    match scan_font_path(&cs) {
        Some(path) => {
            let p = string_from_chars(path.as_slice());
            non_empty_dir(path_parent(p.as_str()))
        },
        None => None,
    }
}

/// The subtitles filter of an ASS sidecar, with its fonts directory when
/// the script names a font.
pub open spec fn subtitles_filter_text(path: Seq<char>, contents: Seq<char>) -> Seq<char> {
    match ass_font_dir_text(contents) {
        Some(d) => "subtitles=filename='"@ + escaped_path(path) + "':fontsdir='"@ + escaped_path(d) + "'"@,
        None => "subtitles='"@ + escaped_path(path) + "'"@,
    }
}

/// The `subtitles` filter that burns an ASS sidecar in.
pub fn subtitles_filter(sidecar: &FfmpegSidecar) -> (r: String)
    ensures
        r@ == subtitles_filter_text(sidecar.path@, sidecar.contents@),
{
    let filename = escape_filter_path(sidecar.path.as_str());
    match ass_font_dir(sidecar.contents.as_str()) {
        Some(dir) => {
            let mut r = lit("subtitles=filename='");
            append_string(&mut r, &filename);
            append_str(&mut r, "':fontsdir='");
            let d = escape_filter_path(dir.as_str());
            append_string(&mut r, &d);
            append_str(&mut r, "'");
            r
        },
        None => {
            let mut r = lit("subtitles='");
            append_string(&mut r, &filename);
            append_str(&mut r, "'");
            r
        },
    }
}

// ---------------------------------------------------------------------------
// Audio output of the filter graph
// ---------------------------------------------------------------------------

/// An audio stream of the filter graph and where it plays in the output.
#[derive(Debug, Clone)]
pub struct AudioLabel {
    pub track_id: String,
    pub label: String,
    pub active_start: u64,
    pub active_end: u64,
}

fn duplicate_label(l: &AudioLabel) -> (r: AudioLabel)
    ensures
        r == *l,
{
    AudioLabel { track_id: l.track_id.clone(), label: l.label.clone(), active_start: l.active_start, active_end: l.active_end }
}

/// The active ranges of labels.
pub open spec fn label_ranges(ls: Seq<AudioLabel>) -> Seq<(u64, u64)> {
    ls.map_values(|l: AudioLabel| (l.active_start, l.active_end))
}

/// Whether one track's labels, ordered by start, tile the output window.
pub fn audio_track_can_concat(labels: &Vec<AudioLabel>, output: &TargetTimerange) -> (r: bool)
    ensures
        r == ranges_tile(label_ranges(labels@), output.duration),
{
    let mut ranges: Vec<(u64, u64)> = Vec::new();
    let mut i: usize = 0;
    while i < labels.len()
        invariant
            i <= labels@.len(),
            ranges@ == label_ranges(labels@.subrange(0, i as int)),
        decreases labels@.len() - i,
    {
        ranges.push((labels[i].active_start, labels[i].active_end));
        i = i + 1;
        assert(ranges@ =~= label_ranges(labels@.subrange(0, i as int)));
    }
    assert(labels@.subrange(0, labels@.len() as int) =~= labels@);
    ranges_cover_output_contiguously(&ranges, output.duration)
}

/// The labels of one track, in order.
pub open spec fn track_labels(ls: Seq<AudioLabel>, id: Seq<char>) -> Seq<AudioLabel>
    decreases ls.len(),
{
    if ls.len() == 0 {
        Seq::empty()
    } else if ls.last().track_id@ == id {
        track_labels(ls.drop_last(), id).push(ls.last())
    } else {
        track_labels(ls.drop_last(), id)
    }
}

fn labels_of_track(labels: &Vec<AudioLabel>, id: &String) -> (r: Vec<AudioLabel>)
    ensures
        r@ == track_labels(labels@, id@),
{
    let mut out: Vec<AudioLabel> = Vec::new();
    let mut i: usize = 0;
    while i < labels.len()
        invariant
            i <= labels@.len(),
            out@ == track_labels(labels@.subrange(0, i as int), id@),
        decreases labels@.len() - i,
    {
        proof {
            assert(labels@.subrange(0, i + 1).drop_last() =~= labels@.subrange(0, i as int));
        }
        if str_eq(labels[i].track_id.as_str(), id.as_str()) {
            out.push(duplicate_label(&labels[i]));
        }
        i = i + 1;
    }
    assert(labels@.subrange(0, labels@.len() as int) =~= labels@);
    out
}

/// `[label]` for each label, joined.
pub open spec fn bracketed(ls: Seq<AudioLabel>) -> Seq<char>
    decreases ls.len(),
{
    if ls.len() == 0 {
        Seq::empty()
    } else {
        bracketed(ls.drop_last()) + "["@ + ls.last().label@ + "]"@
    }
}

fn bracketed_labels(labels: &Vec<AudioLabel>) -> (r: String)
    ensures
        r@ == bracketed(labels@),
{
    let mut r = String::new();
    let mut i: usize = 0;
    while i < labels.len()
        invariant
            i <= labels@.len(),
            r@ == bracketed(labels@.subrange(0, i as int)),
        decreases labels@.len() - i,
    {
        proof {
            assert(labels@.subrange(0, i + 1).drop_last() =~= labels@.subrange(0, i as int));
        }
        append_str(&mut r, "[");
        append_string(&mut r, &labels[i].label);
        append_str(&mut r, "]");
        i = i + 1;
    }
    assert(labels@.subrange(0, labels@.len() as int) =~= labels@);
    r
}

/// The stream a track group is concatenated into.
pub open spec fn atrack_label(k: int) -> Seq<char> {
    "atrack"@ + decimal(k as nat)
}

/// The mix input of track group `k`: its only label, or `atrack{k}`.
pub open spec fn group_mix_label(group: Seq<AudioLabel>, k: int) -> Seq<char> {
    if group.len() == 1 { group[0].label@ } else { atrack_label(k) }
}

/// The concat line of track group `k` when it has several labels.
pub open spec fn group_concat_lines(group: Seq<AudioLabel>, k: int) -> Seq<Seq<char>> {
    if group.len() == 1 {
        Seq::empty()
    } else {
        seq![bracketed(group) + "concat=n="@ + decimal(group.len()) + ":v=0:a=1["@ + atrack_label(k) + "]"@]
    }
}

/// Concat lines of the first `k` track groups, tracks taken in `ids` order.
pub open spec fn concat_lines(ls: Seq<AudioLabel>, ids: Seq<Seq<char>>, k: int) -> Seq<Seq<char>>
    decreases k,
{
    if k <= 0 {
        Seq::empty()
    } else {
        concat_lines(ls, ids, k - 1) + group_concat_lines(track_labels(ls, ids[k - 1]), k - 1)
    }
}

/// Whether every track's labels tile the output window.
pub open spec fn all_tracks_tile(ls: Seq<AudioLabel>, ids: Seq<Seq<char>>, duration: u64) -> bool {
    forall|k: int| 0 <= k < ids.len() ==> #[trigger] ranges_tile(label_ranges(track_labels(ls, ids[k])), duration)
}

/// Track ids of labels.
pub open spec fn label_track_ids(ls: Seq<AudioLabel>) -> Seq<Seq<char>> {
    ls.map_values(|l: AudioLabel| l.track_id@)
}

/// Names of labels.
pub open spec fn label_names(ls: Seq<AudioLabel>) -> Seq<Seq<char>> {
    ls.map_values(|l: AudioLabel| l.label@)
}

/// The audio streams that go into the final mix. When concatenation is
/// allowed and every track's streams tile the output, each track (in track
/// id order) contributes one stream, concatenating its streams into
/// `atrack{k}` when it has several; otherwise every stream goes in.
pub fn audio_mix_labels(
    lines: &mut Vec<String>,
    audio_labels: &Vec<AudioLabel>,
    output: &TargetTimerange,
    allow_track_concat: bool,
) -> (r: Vec<String>)
    ensures
        exists|ids: Seq<Seq<char>>| #[trigger] sorted_distinct_of(ids, label_track_ids(audio_labels@)) && {
            let ls = audio_labels@;
            if allow_track_concat && all_tracks_tile(ls, ids, output.duration) {
                &&& strings_view(r@) == Seq::new(ids.len(), |k: int| group_mix_label(track_labels(ls, ids[k]), k))
                &&& strings_view(final(lines)@) == strings_view(old(lines)@) + concat_lines(ls, ids, ids.len() as int)
            } else {
                &&& strings_view(r@) == label_names(ls)
                &&& final(lines)@ == old(lines)@
            }
        },
{
    let ghost ls = audio_labels@;
    let mut track_ids: Vec<String> = Vec::new();
    let mut names: Vec<String> = Vec::new();
    let mut i: usize = 0;
    while i < audio_labels.len()
        invariant
            ls == audio_labels@,
            i <= ls.len(),
            track_ids@.len() == i,
            names@.len() == i,
            forall|q: int| 0 <= q < i ==> (#[trigger] track_ids@[q])@ == ls[q].track_id@,
            forall|q: int| 0 <= q < i ==> (#[trigger] names@[q])@ == ls[q].label@,
        decreases ls.len() - i,
    {
        track_ids.push(audio_labels[i].track_id.clone());
        names.push(audio_labels[i].label.clone());
        i = i + 1;
    }
    proof {
        assert(strings_view(track_ids@) =~= label_track_ids(ls));
        assert(strings_view(names@) =~= label_names(ls));
    }
    let ids = sorted_distinct(&track_ids);
    let ghost idv = strings_view(ids@);
    proof {
        assert(sorted_distinct_of(idv, label_track_ids(ls)));
    }
    if !allow_track_concat {
        return names;
    }
    let mut k: usize = 0;
    while k < ids.len()
        invariant
            ls == audio_labels@,
            idv == strings_view(ids@),
            k <= idv.len(),
            forall|q: int| 0 <= q < k ==> #[trigger] ranges_tile(label_ranges(track_labels(ls, idv[q])), output.duration),
            strings_view(names@) == label_names(ls),
            lines@ == old(lines)@,
            sorted_distinct_of(idv, label_track_ids(ls)),
        decreases idv.len() - k,
    {
        let group = labels_of_track(audio_labels, &ids[k]);
        proof {
            assert(idv[k as int] == ids@[k as int]@);
        }
        if !audio_track_can_concat(&group, output) {
            proof {
                assert(!ranges_tile(label_ranges(track_labels(ls, idv[k as int])), output.duration));
                assert(!all_tracks_tile(ls, idv, output.duration));
            }
            return names;
        }
        k = k + 1;
    }
    proof {
        assert(all_tracks_tile(ls, idv, output.duration));
    }
    let mut out: Vec<String> = Vec::new();
    let mut k: usize = 0;
    while k < ids.len()
        invariant
            ls == audio_labels@,
            idv == strings_view(ids@),
            k <= idv.len(),
            out@.len() == k,
            sorted_distinct_of(idv, label_track_ids(ls)),
            all_tracks_tile(ls, idv, output.duration),
            forall|q: int| 0 <= q < k ==> (#[trigger] out@[q])@ == group_mix_label(track_labels(ls, idv[q]), q),
            strings_view(lines@) == strings_view(old(lines)@) + concat_lines(ls, idv, k as int),
        decreases idv.len() - k,
    {
        let group = labels_of_track(audio_labels, &ids[k]);
        proof {
            assert(idv[k as int] == ids@[k as int]@);
        }
        let ghost g = track_labels(ls, idv[k as int]);
        let ghost old_lines = strings_view(lines@);
        if group.len() == 1 {
            out.push(group[0].label.clone());
            proof {
                assert(group_concat_lines(g, k as int) =~= Seq::<Seq<char>>::empty());
                assert(strings_view(lines@) =~= strings_view(old(lines)@) + concat_lines(ls, idv, k + 1));
            }
        } else {
            let mut label = lit("atrack");
            let n = u64_to_decimal(k as u64);
            append_string(&mut label, &n);
            let mut line = bracketed_labels(&group);
            append_str(&mut line, "concat=n=");
            let count = u64_to_decimal(group.len() as u64);
            append_string(&mut line, &count);
            append_str(&mut line, ":v=0:a=1[");
            append_string(&mut line, &label);
            append_str(&mut line, "]");
            proof {
                assert(label@ == atrack_label(k as int));
                assert(group_concat_lines(g, k as int) == seq![line@]);
            }
            lines.push(line);
            out.push(label);
            proof {
                assert(strings_view(lines@) =~= old_lines.push(line@));
                assert(strings_view(lines@) =~= strings_view(old(lines)@) + concat_lines(ls, idv, k + 1));
            }
        }
        k = k + 1;
    }
    proof {
        assert(strings_view(out@) =~= Seq::new(idv.len(), |q: int| group_mix_label(track_labels(ls, idv[q]), q)));
    }
    out
}

/// The line that mixes the chosen streams into `[aout]`: a pass-through
/// for one stream, an `amix` for several, none without audio.
pub open spec fn audio_output_lines(mix: Seq<Seq<char>>) -> Seq<Seq<char>> {
    if mix.len() == 1 {
        seq!["["@ + mix[0] + "]anull[aout]"@]
    } else if mix.len() > 1 {
        seq![mix_inputs(mix, mix.len() as int) + "amix=inputs="@ + decimal(mix.len()) + ":duration=longest:normalize=0[aout]"@]
    } else {
        Seq::empty()
    }
}

/// `[name]` for the first `n` names, joined.
pub open spec fn mix_inputs(mix: Seq<Seq<char>>, n: int) -> Seq<char>
    decreases n,
{
    if n <= 0 { Seq::empty() } else { mix_inputs(mix, n - 1) + "["@ + mix[n - 1] + "]"@ }
}

/// Appends the audio output of the filter graph: the concat lines of the
/// chosen streams, then the line producing `[aout]`.
pub fn append_audio_output_filters(
    lines: &mut Vec<String>,
    audio_labels: &Vec<AudioLabel>,
    output: &TargetTimerange,
    allow_track_concat: bool,
) -> (mix: Vec<String>)
    ensures
        exists|ids: Seq<Seq<char>>| #[trigger] sorted_distinct_of(ids, label_track_ids(audio_labels@)) && {
            let ls = audio_labels@;
            if allow_track_concat && all_tracks_tile(ls, ids, output.duration) {
                &&& strings_view(mix@) == Seq::new(ids.len(), |k: int| group_mix_label(track_labels(ls, ids[k]), k))
                &&& strings_view(final(lines)@) == strings_view(old(lines)@) + concat_lines(ls, ids, ids.len() as int)
                    + audio_output_lines(strings_view(mix@))
            } else {
                &&& strings_view(mix@) == label_names(ls)
                &&& strings_view(final(lines)@) == strings_view(old(lines)@) + audio_output_lines(strings_view(mix@))
            }
        },
{
    let mix = audio_mix_labels(lines, audio_labels, output, allow_track_concat);
    let ghost before = strings_view(lines@);
    let ghost mv = strings_view(mix@);
    if mix.len() == 1 {
        let mut l = lit("[");
        append_string(&mut l, &mix[0]);
        append_str(&mut l, "]anull[aout]");
        lines.push(l);
        proof {
            assert(strings_view(lines@) =~= before + audio_output_lines(mv));
        }
    } else if mix.len() > 1 {
        let mut l = String::new();
        let mut i: usize = 0;
        while i < mix.len()
            invariant
                mv == strings_view(mix@),
                i <= mv.len(),
                l@ == mix_inputs(mv, i as int),
            decreases mv.len() - i,
        {
            append_str(&mut l, "[");
            append_string(&mut l, &mix[i]);
            append_str(&mut l, "]");
            i = i + 1;
        }
        append_str(&mut l, "amix=inputs=");
        let n = u64_to_decimal(mix.len() as u64);
        append_string(&mut l, &n);
        append_str(&mut l, ":duration=longest:normalize=0[aout]");
        lines.push(l);
        proof {
            assert(strings_view(lines@) =~= before + audio_output_lines(mv));
        }
    } else {
        proof {
            assert(strings_view(lines@) =~= before + audio_output_lines(mv));
        }
    }
    mix
}

/// A retime that leaves timing alone: a supported constant speed of 1/1.
pub open spec fn is_unity_retime_spec(retime: RenderRetimeIntent) -> bool {
    (retime.retiming.mode matches RetimeMode::Constant { speed } && speed.numerator == 1 && speed.denominator == 1)
        && retime.support == RenderIntentSupport::Supported
}

/// Whether a retime leaves timing alone.
pub fn is_unity_retime(retime: &RenderRetimeIntent) -> (r: bool)
    ensures
        r == is_unity_retime_spec(*retime),
{
    let unity_speed = match &retime.retiming.mode {
        RetimeMode::Constant { speed } => speed.numerator == 1 && speed.denominator == 1,
        RetimeMode::SpeedCurve { .. } => false,
    };
    unity_speed && retime.support == RenderIntentSupport::Supported
}

/// The source range of an audio segment inside the output window: from its
/// retime mapping, else its own ranges clipped to the window.
pub open spec fn clipped_audio_source(audio: RenderAudioMix, output: TargetTimerange) -> Option<SourceTimerange> {
    match retimed_source_for_output(audio.retime.source_mapping, output) {
        Some(r) => Some(r),
        None => spec_clipped_source(audio.source_timerange, audio.target_timerange, output),
    }
}

/// The source range of an audio segment played inside the output window.
pub fn clipped_audio_source_timerange(audio: &RenderAudioMix, output: &TargetTimerange) -> (r: Option<SourceTimerange>)
    ensures
        r == clipped_audio_source(*audio, *output),
{
    match retimed_source_timerange_for_output(&audio.retime.source_mapping, output) {
        Some(r) => Some(r),
        None => clipped_source_timerange(&audio.source_timerange, &audio.target_timerange, output),
    }
}

/// A segment that rules out concatenating audio by track: retimed,
/// keyframed or not audible.
pub open spec fn blocks_audio_concat(audio: RenderAudioMix) -> bool {
    !is_unity_retime_spec(audio.retime) || audio.volume_keyframes@.len() > 0 || !audio.audible
}

/// Where in the output a segment's clipped audio plays: from its delay
/// for the clip's duration (the end saturating).
pub open spec fn audio_active_range(audio: RenderAudioMix, clip: SourceTimerange, output: TargetTimerange) -> (u64, u64) {
    let start = spec_target_delay(audio.target_timerange, output);
    (start, (if start + clip.duration > u64::MAX { u64::MAX as int } else { start + clip.duration }) as u64)
}

/// Track and active range of each of the first `n` segments that play in
/// the output window.
pub open spec fn audio_entries(mixes: Seq<RenderAudioMix>, output: TargetTimerange, n: int) -> Seq<(Seq<char>, (u64, u64))>
    decreases n,
{
    if n <= 0 {
        Seq::empty()
    } else {
        let rest = audio_entries(mixes, output, n - 1);
        match clipped_audio_source(mixes[n - 1], output) {
            Some(clip) => rest.push((mixes[n - 1].track_id@, audio_active_range(mixes[n - 1], clip, output))),
            None => rest,
        }
    }
}

/// The tracks of entries, in order.
pub open spec fn entry_track_ids(entries: Seq<(Seq<char>, (u64, u64))>) -> Seq<Seq<char>> {
    entries.map_values(|e: (Seq<char>, (u64, u64))| e.0)
}

/// The active ranges of one track's entries, in order.
pub open spec fn entry_ranges(entries: Seq<(Seq<char>, (u64, u64))>, id: Seq<char>) -> Seq<(u64, u64)>
    decreases entries.len(),
{
    if entries.len() == 0 {
        Seq::empty()
    } else if entries.last().0 == id {
        entry_ranges(entries.drop_last(), id).push(entries.last().1)
    } else {
        entry_ranges(entries.drop_last(), id)
    }
}

/// Whether the audio segments can be joined per track instead of mixed:
/// there are some, none blocks it, some play in the output window, and each
/// track's ranges tile the window.
pub open spec fn audio_concat_possible(mixes: Seq<RenderAudioMix>, output: TargetTimerange, ids: Seq<Seq<char>>) -> bool {
    let entries = audio_entries(mixes, output, mixes.len() as int);
    &&& mixes.len() > 0
    &&& forall|k: int| 0 <= k < mixes.len() ==> !blocks_audio_concat(#[trigger] mixes[k])
    &&& ids.len() > 0
    &&& forall|k: int| 0 <= k < ids.len() ==> #[trigger] ranges_tile(entry_ranges(entries, ids[k]), output.duration)
}

fn ranges_of_track(track_ids: &Vec<String>, ranges: &Vec<(u64, u64)>, id: &String) -> (r: Vec<(u64, u64)>)
    requires
        track_ids@.len() == ranges@.len(),
    ensures
        r@ == entry_ranges(Seq::new(ranges@.len(), |q: int| (track_ids@[q]@, ranges@[q])), id@),
{
    let ghost entries = Seq::new(ranges@.len(), |q: int| (track_ids@[q]@, ranges@[q]));
    let mut out: Vec<(u64, u64)> = Vec::new();
    let mut i: usize = 0;
    while i < ranges.len()
        invariant
            track_ids@.len() == ranges@.len(),
            entries == Seq::new(ranges@.len(), |q: int| (track_ids@[q]@, ranges@[q])),
            i <= ranges@.len(),
            out@ == entry_ranges(entries.subrange(0, i as int), id@),
        decreases ranges@.len() - i,
    {
        proof {
            assert(entries.subrange(0, i + 1).drop_last() =~= entries.subrange(0, i as int));
        }
        if str_eq(track_ids[i].as_str(), id.as_str()) {
            out.push(ranges[i]);
        }
        i = i + 1;
    }
    assert(entries.subrange(0, ranges@.len() as int) =~= entries);
    out
}

/// Whether the audio of the output can be concatenated per track.
pub fn can_concat_audio_mixes(audio_mixes: &Vec<RenderAudioMix>, output: &TargetTimerange) -> (r: bool)
    ensures
        exists|ids: Seq<Seq<char>>| #[trigger] sorted_distinct_of(ids,
            entry_track_ids(audio_entries(audio_mixes@, *output, audio_mixes@.len() as int)))
            && r == audio_concat_possible(audio_mixes@, *output, ids),
{
    let ghost ms = audio_mixes@;
    let mut track_ids: Vec<String> = Vec::new();
    let mut ranges: Vec<(u64, u64)> = Vec::new();
    let mut blocked = false;
    let mut i: usize = 0;
    while i < audio_mixes.len()
        invariant
            ms == audio_mixes@,
            i <= ms.len(),
            track_ids@.len() == ranges@.len(),
            Seq::new(ranges@.len(), |q: int| (track_ids@[q]@, ranges@[q])) == audio_entries(ms, *output, i as int),
            blocked == exists|k: int| 0 <= k < i && blocks_audio_concat(#[trigger] ms[k]),
        decreases ms.len() - i,
    {
        let audio = &audio_mixes[i];
        if !is_unity_retime(&audio.retime) || audio.volume_keyframes.len() > 0 || !audio.audible {
            blocked = true;
        }
        let ghost old_entries = Seq::new(ranges@.len(), |q: int| (track_ids@[q]@, ranges@[q]));
        match clipped_audio_source_timerange(audio, output) {
            Some(clip) => {
                let start = target_delay_from_output(&audio.target_timerange, output);
                let end = start.saturating_add(clip.duration);
                track_ids.push(audio.track_id.clone());
                ranges.push((start, end));
                proof {
                    assert(Seq::new(ranges@.len(), |q: int| (track_ids@[q]@, ranges@[q]))
                        =~= old_entries.push((audio.track_id@, audio_active_range(*audio, clip, *output))));
                }
            },
            None => {},
        }
        i = i + 1;
    }
    let ghost entries = audio_entries(ms, *output, ms.len() as int);
    proof {
        assert(strings_view(track_ids@) =~= entry_track_ids(entries));
    }
    let ids = sorted_distinct(&track_ids);
    let ghost idv = strings_view(ids@);
    proof {
        assert(sorted_distinct_of(idv, entry_track_ids(entries)));
    }
    if audio_mixes.len() == 0 || ids.len() == 0 || blocked {
        return false;
    }
    let mut k: usize = 0;
    while k < ids.len()
        invariant
            ms == audio_mixes@,
            entries == audio_entries(ms, *output, ms.len() as int),
            track_ids@.len() == ranges@.len(),
            Seq::new(ranges@.len(), |q: int| (track_ids@[q]@, ranges@[q])) == entries,
            idv == strings_view(ids@),
            sorted_distinct_of(idv, entry_track_ids(entries)),
            ms.len() > 0,
            idv.len() > 0,
            forall|q: int| 0 <= q < ms.len() ==> !blocks_audio_concat(#[trigger] ms[q]),
            k <= idv.len(),
            forall|q: int| 0 <= q < k ==> #[trigger] ranges_tile(entry_ranges(entries, idv[q]), output.duration),
        decreases idv.len() - k,
    {
        let group = ranges_of_track(&track_ids, &ranges, &ids[k]);
        proof {
            assert(idv[k as int] == ids@[k as int]@);
        }
        if !ranges_cover_output_contiguously(&group, output.duration) {
            proof {
                assert(!ranges_tile(entry_ranges(entries, idv[k as int]), output.duration));
            }
            return false;
        }
        k = k + 1;
    }
    true
}

// ---------------------------------------------------------------------------
// Visual layers of the filter graph
// ---------------------------------------------------------------------------

/// How a layer's picture is fitted to the output.
#[derive(Debug, Clone, Copy, PartialEq, Eq, Structural)]
pub enum SegmentFitMode {
    Stretch,
    Fit,
    Fill,
}

/// `scale=W:H`.
pub open spec fn scale_text(d: LayerDimensions) -> Seq<char> {
    "scale="@ + decimal(d.width as nat) + ":"@ + decimal(d.height as nat)
}

pub(crate) fn scale_filter(d: LayerDimensions) -> (r: String)
    ensures
        r@ == scale_text(d),
{
    let mut r = lit("scale=");
    let w = u64_to_decimal(d.width as u64);
    append_string(&mut r, &w);
    append_str(&mut r, ":");
    let h = u64_to_decimal(d.height as u64);
    append_string(&mut r, &h);
    r
}

/// Offset of the centred output window inside a filled layer span.
pub open spec fn fill_offset(filled: u32, output: u32) -> int {
    let v = (filled as int - output as int) / 2;
    if v < 0 { 0 } else { v }
}

/// The filters fitting a layer of size `source` to the output, and the
/// layer's size afterwards: stretched to the output, fitted inside it, or
/// filled and cropped to it around the centre.
pub open spec fn fit_mode_result(fit_mode: SegmentFitMode, source: LayerDimensions, output: LayerDimensions) -> (Seq<Seq<char>>, LayerDimensions) {
    match fit_mode {
        SegmentFitMode::Stretch => (if source == output { Seq::empty() } else { seq![scale_text(output)] }, output),
        SegmentFitMode::Fit => {
            let fitted = spec_fit(source, output);
            (if fitted == source { Seq::empty() } else { seq![scale_text(fitted)] }, fitted)
        },
        SegmentFitMode::Fill => {
            let filled = spec_fill(source, output);
            let x = fill_offset(filled.width, output.width);
            let y = fill_offset(filled.height, output.height);
            let scale: Seq<Seq<char>> = if filled != source { seq![scale_text(filled)] } else { Seq::empty() };
            let crop: Seq<Seq<char>> = if filled != output || x != 0 || y != 0 {
                seq!["crop="@ + decimal(output.width as nat) + ":"@ + decimal(output.height as nat) + ":"@
                    + decimal(x as nat) + ":"@ + decimal(y as nat)]
            } else {
                Seq::empty()
            };
            (scale + crop, output)
        },
    }
}

/// The filters that fit a layer to the output, and its size afterwards.
pub fn fit_mode_filters(fit_mode: SegmentFitMode, source: LayerDimensions, output: LayerDimensions) -> (r: (Vec<String>, LayerDimensions))
    ensures
        strings_view(r.0@) == fit_mode_result(fit_mode, source, output).0,
        r.1 == fit_mode_result(fit_mode, source, output).1,
{
    let mut filters: Vec<String> = Vec::new();
    match fit_mode {
        SegmentFitMode::Stretch => {
            if !(source.width == output.width && source.height == output.height) {
                filters.push(scale_filter(output));
            }
            proof {
                assert(strings_view(filters@) =~= fit_mode_result(fit_mode, source, output).0);
            }
            (filters, output)
        },
        SegmentFitMode::Fit => {
            let fitted = fit_dimensions(source, output);
            if !(fitted.width == source.width && fitted.height == source.height) {
                filters.push(scale_filter(fitted));
            }
            proof {
                assert(strings_view(filters@) =~= fit_mode_result(fit_mode, source, output).0);
            }
            (filters, fitted)
        },
        SegmentFitMode::Fill => {
            let filled = fill_dimensions(source, output);
            let x: u64 = if filled.width >= output.width { ((filled.width - output.width) / 2) as u64 } else { 0 };
            let y: u64 = if filled.height >= output.height { ((filled.height - output.height) / 2) as u64 } else { 0 };
            proof {
                assert(x as int == fill_offset(filled.width, output.width));
                assert(y as int == fill_offset(filled.height, output.height));
            }
            if !(filled.width == source.width && filled.height == source.height) {
                filters.push(scale_filter(filled));
            }
            if !(filled.width == output.width && filled.height == output.height) || x != 0 || y != 0 {
                let mut c = lit("crop=");
                let w = u64_to_decimal(output.width as u64);
                append_string(&mut c, &w);
                append_str(&mut c, ":");
                let h = u64_to_decimal(output.height as u64);
                append_string(&mut c, &h);
                append_str(&mut c, ":");
                let xs = u64_to_decimal(x);
                append_string(&mut c, &xs);
                append_str(&mut c, ":");
                let ys = u64_to_decimal(y);
                append_string(&mut c, &ys);
                filters.push(c);
            }
            proof {
                assert(strings_view(filters@) =~= fit_mode_result(fit_mode, source, output).0);
            }
            (filters, output)
        },
    }
}

/// The fit filters of a layer drawn later over the whole canvas: always
/// at least a scale to the output size.
pub open spec fn deferred_fit_text(fit_mode: SegmentFitMode, source: LayerDimensions, output: LayerDimensions) -> Seq<Seq<char>> {
    let f = fit_mode_result(fit_mode, source, output).0;
    if f.len() == 0 { seq![scale_text(output)] } else { f }
}

/// The fit filters of a full-canvas layer whose scaling is deferred.
pub fn deferred_full_canvas_fit_filters(fit_mode: SegmentFitMode, source_dimensions: LayerDimensions, output_dimensions: LayerDimensions) -> (r: Vec<String>)
    ensures
        strings_view(r@) == deferred_fit_text(fit_mode, source_dimensions, output_dimensions),
{
    let (mut filters, _d) = fit_mode_filters(fit_mode, source_dimensions, output_dimensions);
    if filters.len() == 0 {
        filters.push(scale_filter(output_dimensions));
        proof {
            assert(strings_view(filters@) =~= deferred_fit_text(fit_mode, source_dimensions, output_dimensions));
        }
    }
    filters
}

/// The transform of a visual layer as the compiler reads it.
#[derive(Debug, Clone, Copy, PartialEq, Eq, Structural)]
pub struct LayerTransform {
    pub fit_mode: SegmentFitMode,
    pub crop: SegmentCrop,
    pub scale: SegmentScale,
    pub position_x: i32,
    pub position_y: i32,
    pub anchor: SegmentAnchor,
    pub rotation_degrees: i32,
    pub opacity_millis: u32,
}

/// A layer that covers the canvas exactly as it is: stretched, uncropped,
/// unscaled, centred, unrotated and opaque.
pub open spec fn full_canvas_identity(t: LayerTransform) -> bool {
    &&& t.fit_mode == SegmentFitMode::Stretch
    &&& !(t.crop.left_millis > 0 || t.crop.right_millis > 0 || t.crop.top_millis > 0 || t.crop.bottom_millis > 0)
    &&& t.scale.x_millis == 1_000 && t.scale.y_millis == 1_000
    &&& t.position_x == 0 && t.position_y == 0
    &&& t.anchor.x_millis == 500 && t.anchor.y_millis == 500
    &&& (t.rotation_degrees as int) % 360 == 0
    &&& t.opacity_millis == 1_000
}

/// Whether a layer's transform leaves it covering the canvas unchanged.
#[verifier::spinoff_prover]
#[verifier::rlimit(30)]
pub fn is_full_canvas_identity(t: &LayerTransform) -> (r: bool)
    ensures
        r == full_canvas_identity(*t),
{
    t.fit_mode == SegmentFitMode::Stretch && !crop_is_active(&t.crop) && t.scale.x_millis == 1_000
        && t.scale.y_millis == 1_000 && t.position_x == 0 && t.position_y == 0 && t.anchor.x_millis == 500
        && t.anchor.y_millis == 500 && t.rotation_degrees % 360 == 0 && t.opacity_millis == 1_000
}

/// The source filters of a visual layer: a still image is looped at the
/// output rate and trimmed to the clip; a video is trimmed to the clip;
/// both are then retimed.
pub open spec fn visual_source_text(
    material_kind: MaterialKind,
    retime: RenderRetimeIntent,
    clip: SourceTimerange,
    target_delay: u64,
    frame_rate: RationalFrameRate,
) -> Seq<Seq<char>> {
    let retimed = video_retime_text(retime.retiming, target_delay);
    match material_kind {
        MaterialKind::Image => seq![
            "loop=loop=-1:size=1:start=0"@,
            "fps="@ + decimal(frame_rate.numerator as nat) + "/"@ + decimal(frame_rate.denominator as nat),
            "trim=duration="@ + seconds_text(clip.duration),
            retimed,
        ],
        _ => seq!["trim=start="@ + seconds_text(clip.start) + ":duration="@ + seconds_text(clip.duration), retimed],
    }
}

/// The filters that cut a layer's source to its clip and retime it.
pub fn visual_source_filters(
    material_kind: MaterialKind,
    retime: &RenderRetimeIntent,
    clip: &SourceTimerange,
    target_delay: u64,
    frame_rate: &RationalFrameRate,
) -> (r: Vec<String>)
    ensures
        strings_view(r@) == visual_source_text(material_kind, *retime, *clip, target_delay, *frame_rate),
{
    let retime_filters = compile_video_retime_filters(retime, target_delay);
    let retimed = join_strings(&retime_filters, ",");
    proof {
        assert(strings_view(retime_filters@) =~= seq![retime_filters@[0]@]);
        assert(joined(seq![retime_filters@[0]@], ","@) == retime_filters@[0]@);
    }
    let mut r: Vec<String> = Vec::new();
    match material_kind {
        MaterialKind::Image => {
            r.push(lit("loop=loop=-1:size=1:start=0"));
            let mut fps = lit("fps=");
            let n = u64_to_decimal(frame_rate.numerator as u64);
            append_string(&mut fps, &n);
            append_str(&mut fps, "/");
            let dn = u64_to_decimal(frame_rate.denominator as u64);
            append_string(&mut fps, &dn);
            r.push(fps);
            let mut trim = lit("trim=duration=");
            let d = format_seconds(clip.duration);
            append_string(&mut trim, &d);
            r.push(trim);
            r.push(retimed);
            proof {
                assert(r@[1]@ =~= "fps="@ + decimal(frame_rate.numerator as nat) + "/"@ + decimal(frame_rate.denominator as nat));
            }
        },
        _ => {
            let mut trim = lit("trim=start=");
            let st = format_seconds(clip.start);
            append_string(&mut trim, &st);
            append_str(&mut trim, ":duration=");
            let d = format_seconds(clip.duration);
            append_string(&mut trim, &d);
            r.push(trim);
            r.push(retimed);
        },
    }
    proof {
        assert(strings_view(r@) =~= visual_source_text(material_kind, *retime, *clip, target_delay, *frame_rate));
    }
    r
}

/// A transition of the render graph between two segments, as the compiler
/// reads it: the two segments, whether it is supported, and its window on
/// the target timeline.
#[derive(Debug, Clone)]
pub struct RenderTransitionIntent {
    pub from_segment_id: String,
    pub to_segment_id: String,
    pub support: RenderIntentSupport,
    pub reason: String,
    pub window: TargetTimerange,
}

/// A transition by its plain values.
pub open spec fn transition_view(t: RenderTransitionIntent) -> (Seq<char>, Seq<char>, RenderIntentSupport, TargetTimerange) {
    (t.from_segment_id@, t.to_segment_id@, t.support, t.window)
}

/// A possible transition by its plain values.
pub open spec fn opt_transition_view(t: Option<RenderTransitionIntent>) -> Option<(Seq<char>, Seq<char>, RenderIntentSupport, TargetTimerange)> {
    match t {
        Some(t) => Some(transition_view(t)),
        None => None,
    }
}

/// A copy of a transition.
pub fn copy_transition(t: &RenderTransitionIntent) -> (r: RenderTransitionIntent)
    ensures
        transition_view(r) == transition_view(*t),
        r.reason@ == t.reason@,
{
    RenderTransitionIntent {
        from_segment_id: t.from_segment_id.clone(),
        to_segment_id: t.to_segment_id.clone(),
        support: t.support,
        reason: t.reason.clone(),
        window: t.window,
    }
}

/// A copy of a possible transition.
pub fn copy_opt_transition(t: &Option<RenderTransitionIntent>) -> (r: Option<RenderTransitionIntent>)
    ensures
        opt_transition_view(r) == opt_transition_view(*t),
{
    match t {
        Some(t) => Some(copy_transition(t)),
        None => None,
    }
}

/// A compiled visual layer: the segment it draws, its stream label, the
/// transition it starts, its size and where it goes, when it shows, and
/// the lines that produce it.
#[derive(Debug, Clone)]
pub struct VisualLayerFilter {
    pub segment_id: String,
    pub label: String,
    pub transition: Option<RenderTransitionIntent>,
    pub dimensions: LayerDimensions,
    pub placement: LayerPlacement,
    pub active_start: u64,
    pub active_end: u64,
    pub lines: Vec<String>,
}

/// The overlay line of layer `k` over the composition so far.
pub open spec fn overlay_line(layer: VisualLayerFilter, k: int) -> Seq<char> {
    let current = "vbase"@ + decimal(k as nat);
    "["@ + current + "]["@ + layer.label@ + "]overlay=x="@ + signed_decimal(layer.placement.x as int) + ":y="@
        + signed_decimal(layer.placement.y as int) + ":enable='between(t,"@ + seconds_text(layer.active_start) + ","@
        + seconds_text(layer.active_end) + ")'["@ + "vbase"@ + decimal((k + 1) as nat) + "]"@
}

/// The canvas line, then one overlay line per layer in order.
pub open spec fn placed_layer_lines(
    background_color: Seq<char>,
    width: u32,
    height: u32,
    frame_rate: RationalFrameRate,
    output_duration: u64,
    layers: Seq<VisualLayerFilter>,
) -> Seq<Seq<char>> {
    seq!["color=c="@ + background_color + ":s="@ + decimal(width as nat) + "x"@ + decimal(height as nat) + ":r="@
        + decimal(frame_rate.numerator as nat) + "/"@ + decimal(frame_rate.denominator as nat) + ":d="@
        + seconds_text(output_duration) + "[vbase0]"@]
        + Seq::new(layers.len(), |k: int| overlay_line(layers[k], k))
}

/// Lays the placed layers over a canvas of the background colour, each
/// shown between its active times; returns the label of the result.
pub fn compose_placed_visual_layers(
    lines: &mut Vec<String>,
    background_color: &str,
    dimensions: LayerDimensions,
    frame_rate: &RationalFrameRate,
    output_duration: u64,
    layers: &Vec<VisualLayerFilter>,
) -> (r: String)
    ensures
        strings_view(final(lines)@) == strings_view(old(lines)@)
            + placed_layer_lines(background_color@, dimensions.width, dimensions.height, *frame_rate, output_duration, layers@),
        r@ == "vbase"@ + decimal(layers@.len()),
{
    let ghost start = strings_view(lines@);
    let mut base = lit("color=c=");
    append_str(&mut base, background_color);
    append_str(&mut base, ":s=");
    let w = u64_to_decimal(dimensions.width as u64);
    append_string(&mut base, &w);
    append_str(&mut base, "x");
    let h = u64_to_decimal(dimensions.height as u64);
    append_string(&mut base, &h);
    append_str(&mut base, ":r=");
    let rate = frame_rate_arg(frame_rate);
    append_string(&mut base, &rate);
    append_str(&mut base, ":d=");
    let d = format_seconds(output_duration);
    append_string(&mut base, &d);
    append_str(&mut base, "[vbase0]");
    let ghost base_line = base@;
    lines.push(base);
    let mut current = lit("vbase0");
    proof {
        reveal_strlit("vbase0");
        reveal_strlit("vbase");
        assert(decimal(0) == seq!['0']);
        assert(current@ =~= "vbase"@ + decimal(0));
        assert(base_line =~= "color=c="@ + background_color@ + ":s="@ + decimal(dimensions.width as nat) + "x"@
            + decimal(dimensions.height as nat) + ":r="@ + decimal(frame_rate.numerator as nat) + "/"@
            + decimal(frame_rate.denominator as nat) + ":d="@ + seconds_text(output_duration) + "[vbase0]"@);
        let sub0 = layers@.subrange(0, 0);
        assert(Seq::new(sub0.len(), |q: int| overlay_line(sub0[q], q)) =~= Seq::<Seq<char>>::empty());
        assert(strings_view(lines@) =~= start
            + placed_layer_lines(background_color@, dimensions.width, dimensions.height, *frame_rate, output_duration, sub0));
    }
    let mut k: usize = 0;
    while k < layers.len()
        invariant
            k <= layers@.len(),
            current@ == "vbase"@ + decimal(k as nat),
            strings_view(lines@) == start
                + placed_layer_lines(background_color@, dimensions.width, dimensions.height, *frame_rate, output_duration, layers@.subrange(0, k as int)),
        decreases layers@.len() - k,
    {
        let layer = &layers[k];
        let mut out = lit("vbase");
        let n = u64_to_decimal((k + 1) as u64);
        append_string(&mut out, &n);
        let mut l = lit("[");
        append_string(&mut l, &current);
        append_str(&mut l, "][");
        append_string(&mut l, &layer.label);
        append_str(&mut l, "]overlay=x=");
        let x = i64_to_decimal(layer.placement.x);
        append_string(&mut l, &x);
        append_str(&mut l, ":y=");
        let y = i64_to_decimal(layer.placement.y);
        append_string(&mut l, &y);
        append_str(&mut l, ":enable='between(t,");
        let a = format_seconds(layer.active_start);
        append_string(&mut l, &a);
        append_str(&mut l, ",");
        let b = format_seconds(layer.active_end);
        append_string(&mut l, &b);
        append_str(&mut l, ")'[");
        append_string(&mut l, &out);
        append_str(&mut l, "]");
        let ghost before = strings_view(lines@);
        proof {
            assert(l@ =~= overlay_line(*layer, k as int));
        }
        lines.push(l);
        current = out;
        proof {
            let sub = layers@.subrange(0, k + 1);
            assert(strings_view(lines@) =~= before.push(overlay_line(*layer, k as int)));
            assert(Seq::new(sub.len(), |q: int| overlay_line(sub[q], q))
                =~= Seq::new(k as nat, |q: int| overlay_line(layers@.subrange(0, k as int)[q], q)).push(overlay_line(*layer, k as int)));
            assert(strings_view(lines@) =~= start
                + placed_layer_lines(background_color@, dimensions.width, dimensions.height, *frame_rate, output_duration, sub));
        }
        k = k + 1;
    }
    proof {
        assert(layers@.subrange(0, layers@.len() as int) =~= layers@);
    }
    current
}

/// The lines of post-concat filters: none without filters, else one line
/// applying them in order from `input` to `output`.
pub open spec fn post_concat_lines(input: Seq<char>, output: Seq<char>, post_filters: Seq<Seq<char>>) -> Seq<Seq<char>> {
    if post_filters.len() == 0 {
        Seq::empty()
    } else {
        seq!["["@ + input + "]"@ + joined(post_filters, ","@) + "["@ + output + "]"@]
    }
}

/// Applies the filters that follow a concatenation; returns the label of
/// the result (`input` itself when there are none).
pub fn apply_post_concat_visual_filters(lines: &mut Vec<String>, input: &str, output: &str, post_filters: &Vec<String>) -> (r: String)
    ensures
        strings_view(final(lines)@) == strings_view(old(lines)@) + post_concat_lines(input@, output@, strings_view(post_filters@)),
        r@ == if post_filters@.len() == 0 { input@ } else { output@ },
{
    let ghost before = strings_view(lines@);
    if post_filters.len() == 0 {
        proof {
            assert(strings_view(lines@) =~= before + post_concat_lines(input@, output@, strings_view(post_filters@)));
        }
        return lit(input);
    }
    let mut l = lit("[");
    append_str(&mut l, input);
    append_str(&mut l, "]");
    let joined_filters = join_strings(post_filters, ",");
    append_string(&mut l, &joined_filters);
    append_str(&mut l, "[");
    append_str(&mut l, output);
    append_str(&mut l, "]");
    lines.push(l);
    proof {
        assert(strings_view(lines@) =~= before + post_concat_lines(input@, output@, strings_view(post_filters@)));
    }
    lit(output)
}

/// `[label]` for each layer, joined.
pub open spec fn layer_inputs(layers: Seq<VisualLayerFilter>) -> Seq<char>
    decreases layers.len(),
{
    if layers.len() == 0 {
        Seq::empty()
    } else {
        layer_inputs(layers.drop_last()) + "["@ + layers.last().label@ + "]"@
    }
}

/// Lines of concatenating the layers one after another into `vconcat0`:
/// a single layer only gets the post filters; several are concatenated
/// (into `vconcatraw0` when post filters follow).
pub open spec fn concatenated_layer_lines(layers: Seq<VisualLayerFilter>, post_filters: Seq<Seq<char>>) -> Seq<Seq<char>> {
    if layers.len() == 1 {
        post_concat_lines(layers[0].label@, "vconcat0"@, post_filters)
    } else {
        let raw = if post_filters.len() == 0 { "vconcat0"@ } else { "vconcatraw0"@ };
        seq![layer_inputs(layers) + "concat=n="@ + decimal(layers.len()) + ":v=1:a=0["@ + raw + "]"@]
            + post_concat_lines(raw, "vconcat0"@, post_filters)
    }
}

/// Concatenates the layers in time order; returns the label of the result.
pub fn compose_concatenated_visual_layers(lines: &mut Vec<String>, layers: &Vec<VisualLayerFilter>, post_filters: &Vec<String>) -> (r: String)
    ensures
        strings_view(final(lines)@) == strings_view(old(lines)@) + concatenated_layer_lines(layers@, strings_view(post_filters@)),
        r@ == if layers@.len() == 1 && post_filters@.len() == 0 { layers@[0].label@ } else { "vconcat0"@ },
{
    if layers.len() == 1 {
        return apply_post_concat_visual_filters(lines, layers[0].label.as_str(), "vconcat0", post_filters);
    }
    let concat_output = if post_filters.len() == 0 { "vconcat0" } else { "vconcatraw0" };
    let mut inputs = String::new();
    let mut i: usize = 0;
    while i < layers.len()
        invariant
            i <= layers@.len(),
            inputs@ == layer_inputs(layers@.subrange(0, i as int)),
        decreases layers@.len() - i,
    {
        proof {
            assert(layers@.subrange(0, i + 1).drop_last() =~= layers@.subrange(0, i as int));
        }
        append_str(&mut inputs, "[");
        append_string(&mut inputs, &layers[i].label);
        append_str(&mut inputs, "]");
        i = i + 1;
    }
    proof {
        assert(layers@.subrange(0, layers@.len() as int) =~= layers@);
    }
    append_str(&mut inputs, "concat=n=");
    let n = u64_to_decimal(layers.len() as u64);
    append_string(&mut inputs, &n);
    append_str(&mut inputs, ":v=1:a=0[");
    append_str(&mut inputs, concat_output);
    append_str(&mut inputs, "]");
    let ghost before = strings_view(lines@);
    lines.push(inputs);
    let ghost mid = strings_view(lines@);
    let r = apply_post_concat_visual_filters(lines, concat_output, "vconcat0", post_filters);
    proof {
        assert(mid =~= before.push(inputs@));
        assert(strings_view(lines@) =~= strings_view(old(lines)@) + concatenated_layer_lines(layers@, strings_view(post_filters@)));
    }
    r
}

/// The label of a transition's output stream.
pub open spec fn transition_label_text(from_segment_id: Seq<char>, to_segment_id: Seq<char>) -> Seq<char> {
    "vtransition_"@ + sanitized(from_segment_id) + "_to_"@ + sanitized(to_segment_id)
}

/// The label a transition between two segments writes to.
pub fn transition_output_label(transition: &RenderTransitionIntent) -> (r: String)
    ensures
        r@ == transition_label_text(transition.from_segment_id@, transition.to_segment_id@),
{
    let mut r = lit("vtransition_");
    let a = crate::compiler::job::sanitize_id(transition.from_segment_id.as_str());
    append_string(&mut r, &a);
    append_str(&mut r, "_to_");
    let b = crate::compiler::job::sanitize_id(transition.to_segment_id.as_str());
    append_string(&mut r, &b);
    r
}

/// The subtitle lines burning each side file into the video in turn,
/// starting from the stream `current`, and the label of the result.
pub open spec fn subtitle_lines(current: Seq<char>, sidecars: Seq<FfmpegSidecar>, n: int) -> (Seq<Seq<char>>, Seq<char>)
    decreases n,
{
    if n <= 0 {
        (Seq::empty(), current)
    } else {
        let prev = subtitle_lines(current, sidecars, n - 1);
        let out = "vtext"@ + decimal((n - 1) as nat);
        (prev.0.push("["@ + prev.1 + "]"@ + subtitles_filter_text(sidecars[n - 1].path@, sidecars[n - 1].contents@)
            + "["@ + out + "]"@), out)
    }
}

/// Finishes the video: burns in the subtitle side files, then converts to
/// `yuv420p` as `vout`. Text overlays without any side file are an error,
/// and then nothing is added.
pub fn append_video_output_filters(
    lines: &mut Vec<String>,
    current_video: String,
    has_text_overlays: bool,
    ass_sidecars: &Vec<FfmpegSidecar>,
) -> (r: Result<(), FfmpegCompileError>)
    ensures
        r is Err <==> has_text_overlays && ass_sidecars@.len() == 0,
        r matches Err(e) ==> e.kind == FfmpegCompileErrorKind::MissingTextFont
            && e.message@ == "text overlays did not produce an ASS sidecar"@
            && e.remediation@ == "Compile ASS sidecars before generating the filter script."@
            && e.material_id is None && final(lines)@ == old(lines)@,
        r is Ok ==> {
            let s = subtitle_lines(current_video@, ass_sidecars@, ass_sidecars@.len() as int);
            strings_view(final(lines)@) == strings_view(old(lines)@) + s.0 + seq!["["@ + s.1 + "]format=yuv420p[vout]"@]
        },
{
    if has_text_overlays && ass_sidecars.len() == 0 {
        return Err(FfmpegCompileError::new(
            FfmpegCompileErrorKind::MissingTextFont,
            lit("text overlays did not produce an ASS sidecar"),
            lit("Compile ASS sidecars before generating the filter script."),
        ));
    }
    let ghost start = strings_view(lines@);
    let mut current = current_video;
    let mut k: usize = 0;
    while k < ass_sidecars.len()
        invariant
            k <= ass_sidecars@.len(),
            strings_view(lines@) == start + subtitle_lines(current_video@, ass_sidecars@, k as int).0,
            current@ == subtitle_lines(current_video@, ass_sidecars@, k as int).1,
        decreases ass_sidecars@.len() - k,
    {
        let mut out = lit("vtext");
        let n = u64_to_decimal(k as u64);
        append_string(&mut out, &n);
        let mut line = lit("[");
        append_string(&mut line, &current);
        append_str(&mut line, "]");
        let f = subtitles_filter(&ass_sidecars[k]);
        append_string(&mut line, &f);
        append_str(&mut line, "[");
        append_string(&mut line, &out);
        append_str(&mut line, "]");
        let ghost before = strings_view(lines@);
        lines.push(line);
        proof {
            assert(strings_view(lines@) =~= before.push(line@));
        }
        current = out;
        k = k + 1;
    }
    let mut last = lit("[");
    append_string(&mut last, &current);
    append_str(&mut last, "]format=yuv420p[vout]");
    let ghost before = strings_view(lines@);
    lines.push(last);
    proof {
        assert(strings_view(lines@) =~= before.push(last@));
    }
    Ok(())
}

} // verus!
