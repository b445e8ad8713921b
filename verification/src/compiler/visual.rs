//! One visual layer of the render graph compiled into filter-script lines:
//! cut and retimed from its input, cropped and fitted, laid on its segment
//! background, passed through its effects and mask, then scaled, rotated
//! and faded.
use vstd::prelude::*;

use crate::compiler::ass::{join_strings, joined};
use crate::compiler::effects::RenderRetimeIntent;
use crate::compiler::filters::{
    crop_is_active, cropped_dimensions, ffmpeg_color, fill_offset, fit_mode_filters, fit_mode_result,
    frame_rate_arg, full_canvas_identity, is_full_canvas_identity, layer_placement, millis_decimal, millis_of,
    millis_text, scale_filter, scale_text, scaled_dimensions, segment_background_color_arg, spec_cropped,
    spec_placement, spec_scaled, spec_scaled_millis, spec_target_delay, target_delay_from_output,
    visual_source_filters, visual_source_text, LayerDimensions, LayerPlacement, LayerTransform, VisualLayerFilter,
    copy_opt_transition, opt_transition_view, RenderTransitionIntent,
};
use crate::compiler::effects::{retimed_source_for_output, retimed_source_timerange_for_output};
use crate::compiler::filters::{
    active_target_range, clipped_source_timerange, deferred_fit_text, deferred_full_canvas_fit_filters,
    is_unity_retime, is_unity_retime_spec, ranges_cover_output_contiguously, ranges_tile, spec_active_range,
    spec_clipped_source,
};
use crate::compiler::job::{format_seconds, seconds_text, RenderFilterIntent, RenderMaterial};
use crate::engine::model::{BackgroundFilling, MaterialKind, RationalFrameRate, SourceTimerange, TargetTimerange};
use crate::text::{append_str, append_string, clone_strings, decimal, lit, str_eq, strings_equal, strings_view, u64_to_decimal};

verus! {

/// Whether a layer's filters run on the output timeline, or on the
/// segment's own timeline because the layers are concatenated afterwards.
#[derive(Debug, Clone, Copy, PartialEq, Eq, Structural)]
pub enum LayerTimelineAlignment {
    OutputTimeline,
    SegmentLocal,
}

/// A video layer of the render graph, as the compiler reads it. The flags
/// stand for the layer's masks and blend modes, of which the compiler only
/// asks whether they are present or normal.
#[derive(Debug, Clone)]
pub struct RenderVideoLayer {
    pub track_id: String,
    pub segment_id: String,
    pub material_id: String,
    pub material_kind: MaterialKind,
    pub stack_index: u32,
    pub source_timerange: SourceTimerange,
    pub target_timerange: TargetTimerange,
    pub retime: RenderRetimeIntent,
    pub transform: LayerTransform,
    pub background: BackgroundFilling,
    pub visible: bool,
    pub filters: Vec<RenderFilterIntent>,
    pub has_mask: bool,
    pub has_visual_mask: bool,
    pub blend_is_normal: bool,
    pub visual_blend_is_normal: bool,
    pub transition: Option<RenderTransitionIntent>,
    pub has_keyframes: bool,
}

/// The colour a segment background is painted in, if it is painted.
pub open spec fn segment_background_color(b: BackgroundFilling) -> Option<Seq<char>> {
    match b {
        BackgroundFilling::Black => Some("black"@),
        BackgroundFilling::SolidColor { color } => ffmpeg_color(color@),
        _ => None,
    }
}

/// `v{index}`: the label of a compiled layer.
pub open spec fn layer_label_text(index: usize) -> Seq<char> {
    "v"@ + decimal(index as nat)
}

/// `vstage{index}{suffix}`: the label of an intermediate stage.
pub open spec fn stage_text(index: usize, suffix: Seq<char>) -> Seq<char> {
    "vstage"@ + decimal(index as nat) + suffix
}

/// `{input_index}:v`: the video stream of an input.
pub open spec fn input_stream_text(input_index: u32) -> Seq<char> {
    decimal(input_index as nat) + ":v"@
}

/// `[input]f1,f2,...[output]`.
pub open spec fn filter_line_text(input: Seq<char>, filters: Seq<Seq<char>>, output: Seq<char>) -> Seq<char> {
    "["@ + input + "]"@ + joined(filters, ","@) + "["@ + output + "]"@
}

/// Where the layer starts showing in the output, and where it stops.
pub open spec fn layer_active_range(target: TargetTimerange, clip: SourceTimerange, output: TargetTimerange) -> (u64, u64) {
    let start = spec_target_delay(target, output);
    (start, (if start + clip.duration > u64::MAX { u64::MAX as int } else { start + clip.duration }) as u64)
}

/// The delay the layer's retime filters count from.
pub open spec fn layer_filter_delay(alignment: LayerTimelineAlignment, active_start: u64) -> u64 {
    match alignment {
        LayerTimelineAlignment::OutputTimeline => active_start,
        LayerTimelineAlignment::SegmentLocal => 0,
    }
}

/// The fit filters and fitted size; a layer on its own timeline is
/// fitted later, after concatenation.
pub open spec fn layer_fit(t: LayerTransform, source: LayerDimensions, output: LayerDimensions, alignment: LayerTimelineAlignment) -> (Seq<Seq<char>>, LayerDimensions) {
    if alignment == LayerTimelineAlignment::SegmentLocal {
        (Seq::empty(), source)
    } else {
        fit_mode_result(t.fit_mode, spec_cropped(source, t.crop), output)
    }
}

/// The crop filter of a layer fitted here, when it is cropped at all.
pub open spec fn crop_part(t: LayerTransform, source: LayerDimensions, alignment: LayerTimelineAlignment) -> Seq<Seq<char>> {
    let c = spec_cropped(source, t.crop);
    if alignment == LayerTimelineAlignment::OutputTimeline && (t.crop.left_millis > 0 || t.crop.right_millis > 0
        || t.crop.top_millis > 0 || t.crop.bottom_millis > 0) {
        seq!["crop="@ + decimal(c.width as nat) + ":"@ + decimal(c.height as nat) + ":"@
            + decimal(spec_scaled_millis(source.width, t.crop.left_millis) as nat) + ":"@
            + decimal(spec_scaled_millis(source.height, t.crop.top_millis) as nat)]
    } else {
        Seq::empty()
    }
}

/// The two lines that paint the segment background behind a layer that
/// does not fill the output, and centre the layer on it.
pub open spec fn background_lines(
    index: usize,
    color: Seq<char>,
    output: LayerDimensions,
    frame_rate: RationalFrameRate,
    duration: u64,
    current: LayerDimensions,
) -> Seq<Seq<char>> {
    let bg = "vsegbg"@ + decimal(index as nat);
    seq![
        "color=c="@ + color + ":s="@ + decimal(output.width as nat) + "x"@ + decimal(output.height as nat) + ":r="@
            + decimal(frame_rate.numerator as nat) + "/"@ + decimal(frame_rate.denominator as nat) + ":d="@
            + seconds_text(duration) + "["@ + bg + "]"@,
        "["@ + bg + "]["@ + stage_text(index, "a"@) + "]overlay=x="@
            + decimal(fill_offset(output.width, current.width) as nat) + ":y="@
            + decimal(fill_offset(output.height, current.height) as nat) + ":shortest=1["@
            + stage_text(index, "b"@) + "]"@,
    ]
}

/// Adds a stage that applies `filters` to the current stream, when there
/// are any.
pub open spec fn push_stage(state: (Seq<Seq<char>>, Seq<char>), filters: Seq<Seq<char>>, label: Seq<char>) -> (Seq<Seq<char>>, Seq<char>) {
    if filters.len() == 0 {
        state
    } else {
        (state.0.push(filter_line_text(state.1, filters, label)), label)
    }
}

/// The layer's lines up to the background, its label there and its size.
pub open spec fn background_stage(
    layer: RenderVideoLayer,
    index: usize,
    input_index: u32,
    clip: SourceTimerange,
    source: LayerDimensions,
    output: LayerDimensions,
    frame_rate: RationalFrameRate,
    output_range: TargetTimerange,
    alignment: LayerTimelineAlignment,
) -> (Seq<Seq<char>>, Seq<char>, LayerDimensions) {
    let t = layer.transform;
    let delay = layer_filter_delay(alignment, spec_target_delay(layer.target_timerange, output_range));
    let fit = layer_fit(t, source, output, alignment);
    let filters = visual_source_text(layer.material_kind, layer.retime, clip, delay, frame_rate)
        + crop_part(t, source, alignment) + fit.0;
    let first = seq![filter_line_text(input_stream_text(input_index), filters, stage_text(index, "a"@))];
    match segment_background_color(layer.background) {
        Some(c) => if fit.1 != output {
            (first + background_lines(index, c, output, frame_rate, output_range.duration, fit.1), stage_text(index, "b"@), output)
        } else {
            (first, stage_text(index, "a"@), fit.1)
        },
        None => (first, stage_text(index, "a"@), fit.1),
    }
}

/// The size a layer has where its mask applies: the output for a layer
/// that covers it unchanged, else its size after fitting and background.
pub open spec fn mask_dimensions(
    layer: RenderVideoLayer,
    source: LayerDimensions,
    output: LayerDimensions,
    alignment: LayerTimelineAlignment,
) -> LayerDimensions {
    if full_canvas_identity(layer.transform) {
        output
    } else {
        let fitted = layer_fit(layer.transform, source, output, alignment).1;
        match segment_background_color(layer.background) {
            Some(c) => if fitted != output { output } else { fitted },
            None => fitted,
        }
    }
}

/// Whether the layer is turned by other than a whole number of turns.
pub open spec fn rotation_active(t: LayerTransform) -> bool {
    (t.rotation_degrees as int) % 360 != 0
}

/// The transform filters: scale, an alpha format when rotating or fading,
/// the rotation by `angle` radians with the bounds grown to fit, and the
/// fade.
pub open spec fn transform_text(current: LayerDimensions, t: LayerTransform, angle: Seq<char>) -> Seq<Seq<char>> {
    let scaled = spec_scaled(current, t.scale);
    let rot = rotation_active(t);
    let fade = t.opacity_millis < 1_000;
    (if scaled != current { seq![scale_text(scaled)] } else { Seq::empty() })
        + (if rot || fade { seq!["format=rgba"@] } else { Seq::empty() })
        + (if rot { seq!["rotate="@ + angle + ":ow=rotw("@ + angle + "):oh=roth("@ + angle + "):c=none"@] } else { Seq::empty() })
        + (if fade { seq!["colorchannelmixer=aa="@ + millis_text(t.opacity_millis)] } else { Seq::empty() })
}

/// All lines of a compiled layer.
pub open spec fn visual_layer_lines(
    layer: RenderVideoLayer,
    index: usize,
    input_index: u32,
    clip: SourceTimerange,
    source: LayerDimensions,
    output: LayerDimensions,
    frame_rate: RationalFrameRate,
    output_range: TargetTimerange,
    alignment: LayerTimelineAlignment,
    effect_filters: Seq<Seq<char>>,
    mask_filters: Seq<Seq<char>>,
    rotation_angle: Seq<char>,
) -> Seq<Seq<char>> {
    let delay = layer_filter_delay(alignment, spec_target_delay(layer.target_timerange, output_range));
    if full_canvas_identity(layer.transform) {
        let filters = visual_source_text(layer.material_kind, layer.retime, clip, delay, frame_rate)
            + (if source != output { seq![scale_text(output)] } else { Seq::empty() }) + effect_filters + mask_filters;
        seq![filter_line_text(input_stream_text(input_index), filters, layer_label_text(index))]
    } else {
        let b = background_stage(layer, index, input_index, clip, source, output, frame_rate, output_range, alignment);
        let s = push_stage(
            push_stage((b.0, b.1), effect_filters, stage_text(index, "effects"@)),
            mask_filters,
            stage_text(index, "mask"@),
        );
        let tf = transform_text(b.2, layer.transform, rotation_angle);
        s.0.push(filter_line_text(s.1, if tf.len() == 0 { seq!["null"@] } else { tf }, layer_label_text(index)))
    }
}

/// The size of a compiled layer: the output for a layer that covers it
/// unchanged; else its scaled size, or the given bounds of the rotated
/// layer when it is rotated.
pub open spec fn visual_layer_dimensions(
    layer: RenderVideoLayer,
    source: LayerDimensions,
    output: LayerDimensions,
    alignment: LayerTimelineAlignment,
    rotated: LayerDimensions,
) -> LayerDimensions {
    if full_canvas_identity(layer.transform) {
        output
    } else if rotation_active(layer.transform) {
        rotated
    } else {
        spec_scaled(mask_dimensions(layer, source, output, alignment), layer.transform.scale)
    }
}

/// The colour a segment background is painted in.
fn background_color(background: &BackgroundFilling) -> (r: Option<String>)
    ensures
        match r {
            Some(v) => segment_background_color(*background) == Some(v@),
            None => segment_background_color(*background) is None,
        },
{
    segment_background_color_arg(background)
}

/// `vstage{index}{suffix}`.
fn stage_label(index: usize, suffix: &str) -> (r: String)
    ensures
        r@ == stage_text(index, suffix@),
{
    let mut r = lit("vstage");
    let n = u64_to_decimal(index as u64);
    append_string(&mut r, &n);
    append_str(&mut r, suffix);
    r
}

/// `[input]f1,f2,...[output]`.
fn filter_line(input: &String, filters: &Vec<String>, output: &String) -> (r: String)
    ensures
        r@ == filter_line_text(input@, strings_view(filters@), output@),
{
    let mut r = lit("[");
    append_string(&mut r, input);
    append_str(&mut r, "]");
    let j = join_strings(filters, ",");
    append_string(&mut r, &j);
    append_str(&mut r, "[");
    append_string(&mut r, output);
    append_str(&mut r, "]");
    r
}

/// Appends copies of `w` to `v`.
fn extend_strings(v: &mut Vec<String>, w: &Vec<String>)
    ensures
        strings_view(final(v)@) == strings_view(old(v)@) + strings_view(w@),
{
    let ghost start = strings_view(v@);
    let mut i: usize = 0;
    while i < w.len()
        invariant
            i <= w@.len(),
            strings_view(v@) == start + strings_view(w@.subrange(0, i as int)),
        decreases w@.len() - i,
    {
        let s = w[i].clone();
        let ghost before = strings_view(v@);
        v.push(s);
        proof {
            assert(strings_view(v@) =~= before.push(w@[i as int]@));
            assert(strings_view(w@.subrange(0, i + 1)) =~= strings_view(w@.subrange(0, i as int)).push(w@[i as int]@));
        }
        i = i + 1;
    }
    proof {
        assert(w@.subrange(0, w@.len() as int) =~= w@);
    }
}

/// Adds a stage applying `filters` to the stream `current`; returns the
/// label of the stream afterwards.
fn push_filter_stage(lines: &mut Vec<String>, current: String, filters: &Vec<String>, label: String) -> (r: String)
    ensures
        (strings_view(final(lines)@), r@) == push_stage((strings_view(old(lines)@), current@), strings_view(filters@), label@),
{
    if filters.len() == 0 {
        return current;
    }
    let l = filter_line(&current, filters, &label);
    let ghost before = strings_view(lines@);
    lines.push(l);
    proof {
        assert(strings_view(lines@) =~= before.push(filter_line_text(current@, strings_view(filters@), label@)));
    }
    label
}

/// The size a layer has where its mask applies, for compiling the mask.
pub fn visual_layer_mask_dimensions(
    layer: &RenderVideoLayer,
    source_dimensions: LayerDimensions,
    output_dimensions: LayerDimensions,
    alignment: LayerTimelineAlignment,
) -> (r: LayerDimensions)
    ensures
        r == mask_dimensions(*layer, source_dimensions, output_dimensions, alignment),
{
    if is_full_canvas_identity(&layer.transform) {
        return output_dimensions;
    }
    let fitted = if alignment == LayerTimelineAlignment::SegmentLocal {
        source_dimensions
    } else {
        let cropped = cropped_dimensions(source_dimensions, &layer.transform.crop);
        fit_mode_filters(layer.transform.fit_mode, cropped, output_dimensions).1
    };
    match background_color(&layer.background) {
        Some(_c) => if fitted == output_dimensions { fitted } else { output_dimensions },
        None => fitted,
    }
}

/// `v{index}`.
fn layer_label(index: usize) -> (r: String)
    ensures
        r@ == layer_label_text(index),
{
    let mut r = lit("v");
    let n = u64_to_decimal(index as u64);
    append_string(&mut r, &n);
    r
}

/// The filters that cut, retime, crop and fit a layer from its input.
fn source_stage_filters(
    layer: &RenderVideoLayer,
    clip: &SourceTimerange,
    delay: u64,
    source_dimensions: LayerDimensions,
    output_dimensions: LayerDimensions,
    frame_rate: &RationalFrameRate,
    alignment: LayerTimelineAlignment,
) -> (r: (Vec<String>, LayerDimensions))
    ensures
        strings_view(r.0@) == visual_source_text(layer.material_kind, layer.retime, *clip, delay, *frame_rate)
            + crop_part(layer.transform, source_dimensions, alignment)
            + layer_fit(layer.transform, source_dimensions, output_dimensions, alignment).0,
        r.1 == layer_fit(layer.transform, source_dimensions, output_dimensions, alignment).1,
{
    let t = &layer.transform;
    let (fit_filters, fitted) = if alignment == LayerTimelineAlignment::SegmentLocal {
        (Vec::new(), source_dimensions)
    } else {
        let cropped = cropped_dimensions(source_dimensions, &t.crop);
        fit_mode_filters(t.fit_mode, cropped, output_dimensions)
    };
    proof {
        if alignment == LayerTimelineAlignment::SegmentLocal {
            assert(strings_view(fit_filters@) =~= Seq::<Seq<char>>::empty());
        }
    }
    let mut filters = visual_source_filters(layer.material_kind, &layer.retime, clip, delay, frame_rate);
    let ghost source_part = strings_view(filters@);
    if alignment == LayerTimelineAlignment::OutputTimeline && crop_is_active(&t.crop) {
        let c = cropped_dimensions(source_dimensions, &t.crop);
        let left = millis_of(source_dimensions.width, t.crop.left_millis);
        let top = millis_of(source_dimensions.height, t.crop.top_millis);
        let mut f = lit("crop=");
        let w = u64_to_decimal(c.width as u64);
        append_string(&mut f, &w);
        append_str(&mut f, ":");
        let h = u64_to_decimal(c.height as u64);
        append_string(&mut f, &h);
        append_str(&mut f, ":");
        let l = u64_to_decimal(left as u64);
        append_string(&mut f, &l);
        append_str(&mut f, ":");
        let tp = u64_to_decimal(top as u64);
        append_string(&mut f, &tp);
        filters.push(f);
        proof {
            assert(strings_view(filters@) =~= source_part + crop_part(layer.transform, source_dimensions, alignment));
        }
    } else {
        proof {
            assert(strings_view(filters@) =~= source_part + crop_part(layer.transform, source_dimensions, alignment));
        }
    }
    extend_strings(&mut filters, &fit_filters);
    (filters, fitted)
}

/// The single line of a layer that covers the output unchanged.
fn identity_layer_line(
    layer: &RenderVideoLayer,
    input: &String,
    label: &String,
    clip: &SourceTimerange,
    delay: u64,
    source_dimensions: LayerDimensions,
    output_dimensions: LayerDimensions,
    frame_rate: &RationalFrameRate,
    effect_filters: &Vec<String>,
    mask_filters: &Vec<String>,
) -> (r: String)
    ensures
        r@ == filter_line_text(input@,
            visual_source_text(layer.material_kind, layer.retime, *clip, delay, *frame_rate)
                + (if source_dimensions != output_dimensions { seq![scale_text(output_dimensions)] } else { Seq::empty() })
                + strings_view(effect_filters@) + strings_view(mask_filters@),
            label@),
{
    let mut filters = visual_source_filters(layer.material_kind, &layer.retime, clip, delay, frame_rate);
    let ghost src = strings_view(filters@);
    if !(source_dimensions == output_dimensions) {
        filters.push(scale_filter(output_dimensions));
    }
    proof {
        assert(strings_view(filters@) =~= src
            + (if source_dimensions != output_dimensions { seq![scale_text(output_dimensions)] } else { Seq::empty() }));
    }
    extend_strings(&mut filters, effect_filters);
    extend_strings(&mut filters, mask_filters);
    filter_line(input, &filters, label)
}

/// Paints the segment background behind the stream `current` and centres
/// it there; returns the label of the composed stream.
fn paint_background(
    lines: &mut Vec<String>,
    current: &String,
    layer_index: usize,
    color: &String,
    output_dimensions: LayerDimensions,
    frame_rate: &RationalFrameRate,
    duration: u64,
    fitted: LayerDimensions,
) -> (r: String)
    requires
        current@ == stage_text(layer_index, "a"@),
    ensures
        strings_view(final(lines)@) == strings_view(old(lines)@)
            + background_lines(layer_index, color@, output_dimensions, *frame_rate, duration, fitted),
        r@ == stage_text(layer_index, "b"@),
{
    let ghost start = strings_view(lines@);
    let mut bg = lit("vsegbg");
    let n = u64_to_decimal(layer_index as u64);
    append_string(&mut bg, &n);
    let composed = stage_label(layer_index, "b");
    let mut l1 = lit("color=c=");
    append_string(&mut l1, color);
    append_str(&mut l1, ":s=");
    let w = u64_to_decimal(output_dimensions.width as u64);
    append_string(&mut l1, &w);
    append_str(&mut l1, "x");
    let h = u64_to_decimal(output_dimensions.height as u64);
    append_string(&mut l1, &h);
    append_str(&mut l1, ":r=");
    let rate = frame_rate_arg(frame_rate);
    append_string(&mut l1, &rate);
    append_str(&mut l1, ":d=");
    let d = format_seconds(duration);
    append_string(&mut l1, &d);
    append_str(&mut l1, "[");
    append_string(&mut l1, &bg);
    append_str(&mut l1, "]");
    let x: u64 = if output_dimensions.width >= fitted.width {
        ((output_dimensions.width - fitted.width) / 2) as u64
    } else {
        0
    };
    let y: u64 = if output_dimensions.height >= fitted.height {
        ((output_dimensions.height - fitted.height) / 2) as u64
    } else {
        0
    };
    proof {
        assert(x as int == fill_offset(output_dimensions.width, fitted.width));
        assert(y as int == fill_offset(output_dimensions.height, fitted.height));
    }
    let mut l2 = lit("[");
    append_string(&mut l2, &bg);
    append_str(&mut l2, "][");
    append_string(&mut l2, current);
    append_str(&mut l2, "]overlay=x=");
    let xs = u64_to_decimal(x);
    append_string(&mut l2, &xs);
    append_str(&mut l2, ":y=");
    let ys = u64_to_decimal(y);
    append_string(&mut l2, &ys);
    append_str(&mut l2, ":shortest=1[");
    append_string(&mut l2, &composed);
    append_str(&mut l2, "]");
    proof {
        let bgv = "vsegbg"@ + decimal(layer_index as nat);
        assert(bg@ =~= bgv);
        assert(l1@ =~= "color=c="@ + color@ + ":s="@ + decimal(output_dimensions.width as nat) + "x"@
            + decimal(output_dimensions.height as nat) + ":r="@ + decimal(frame_rate.numerator as nat) + "/"@
            + decimal(frame_rate.denominator as nat) + ":d="@ + seconds_text(duration) + "["@ + bgv + "]"@);
        assert(l2@ =~= "["@ + bgv + "]["@ + stage_text(layer_index, "a"@) + "]overlay=x="@
            + decimal(fill_offset(output_dimensions.width, fitted.width) as nat) + ":y="@
            + decimal(fill_offset(output_dimensions.height, fitted.height) as nat) + ":shortest=1["@
            + stage_text(layer_index, "b"@) + "]"@);
    }
    lines.push(l1);
    lines.push(l2);
    proof {
        assert(strings_view(lines@) =~= start + background_lines(layer_index, color@, output_dimensions,
            *frame_rate, duration, fitted));
    }
    composed
}

/// The transform filters of a layer of size `current`.
fn transform_filters(current: LayerDimensions, t: &LayerTransform, rotation_angle: &str) -> (r: Vec<String>)
    ensures
        strings_view(r@) == transform_text(current, *t, rotation_angle@),
{
    let scaled = scaled_dimensions(current, &t.scale);
    let rot = t.rotation_degrees % 360 != 0;
    let fade = t.opacity_millis < 1_000;
    let mut tf: Vec<String> = Vec::new();
    if !(scaled == current) {
        tf.push(scale_filter(scaled));
    }
    let ghost a = strings_view(tf@);
    if rot || fade {
        tf.push(lit("format=rgba"));
    }
    let ghost b = strings_view(tf@);
    if rot {
        let mut f = lit("rotate=");
        append_str(&mut f, rotation_angle);
        append_str(&mut f, ":ow=rotw(");
        append_str(&mut f, rotation_angle);
        append_str(&mut f, "):oh=roth(");
        append_str(&mut f, rotation_angle);
        append_str(&mut f, "):c=none");
        tf.push(f);
    }
    let ghost c = strings_view(tf@);
    if fade {
        let mut f = lit("colorchannelmixer=aa=");
        let m = millis_decimal(t.opacity_millis);
        append_string(&mut f, &m);
        tf.push(f);
    }
    proof {
        let scaled_part: Seq<Seq<char>> = if spec_scaled(current, t.scale) != current { seq![scale_text(spec_scaled(current, t.scale))] } else { Seq::empty() };
        assert(a =~= scaled_part);
        assert(b =~= a + (if rot || fade { seq!["format=rgba"@] } else { Seq::<Seq<char>>::empty() }));
        assert(c =~= b + (if rot { seq!["rotate="@ + rotation_angle@ + ":ow=rotw("@ + rotation_angle@ + "):oh=roth("@ + rotation_angle@ + "):c=none"@] } else { Seq::<Seq<char>>::empty() }));
        assert(strings_view(tf@) =~= c + (if fade { seq!["colorchannelmixer=aa="@ + millis_text(t.opacity_millis)] } else { Seq::<Seq<char>>::empty() }));
    }
    tf
}

/// The lines of a layer up to its background, its label there and its
/// size.
fn background_stage_lines(
    layer: &RenderVideoLayer,
    layer_index: usize,
    input_index: u32,
    input: &String,
    clip: &SourceTimerange,
    delay: u64,
    source_dimensions: LayerDimensions,
    output_dimensions: LayerDimensions,
    frame_rate: &RationalFrameRate,
    output_range: &TargetTimerange,
    alignment: LayerTimelineAlignment,
) -> (r: (Vec<String>, String, LayerDimensions))
    requires
        input@ == input_stream_text(input_index),
        delay == layer_filter_delay(alignment, spec_target_delay(layer.target_timerange, *output_range)),
    ensures
        (strings_view(r.0@), r.1@, r.2) == background_stage(*layer, layer_index, input_index, *clip,
            source_dimensions, output_dimensions, *frame_rate, *output_range, alignment),
{
    let (source_filters, fitted) = source_stage_filters(layer, clip, delay, source_dimensions, output_dimensions,
        frame_rate, alignment);
    let mut lines: Vec<String> = Vec::new();
    let mut current = stage_label(layer_index, "a");
    let first = filter_line(input, &source_filters, &current);
    lines.push(first);
    let mut current_dims = fitted;
    match background_color(&layer.background) {
        Some(color) => {
            if !(fitted == output_dimensions) {
                current = paint_background(&mut lines, &current, layer_index, &color, output_dimensions,
                    frame_rate, output_range.duration, fitted);
                current_dims = output_dimensions;
            }
        },
        None => {},
    }
    proof {
        let b = background_stage(*layer, layer_index, input_index, *clip, source_dimensions, output_dimensions,
            *frame_rate, *output_range, alignment);
        assert(strings_view(lines@) =~= b.0);
    }
    (lines, current, current_dims)
}

/// Adds the effect and mask stages and the final transform line of a
/// layer whose stream is `current` and whose size is `current_dims`.
fn finish_layer_stages(
    lines: &mut Vec<String>,
    current: String,
    layer_index: usize,
    effect_filters: &Vec<String>,
    mask_filters: &Vec<String>,
    current_dims: LayerDimensions,
    t: &LayerTransform,
    rotation_angle: &str,
    label: &String,
)
    ensures
        strings_view(final(lines)@) == ({
            let s = push_stage(
                push_stage((strings_view(old(lines)@), current@), strings_view(effect_filters@), stage_text(layer_index, "effects"@)),
                strings_view(mask_filters@),
                stage_text(layer_index, "mask"@),
            );
            let tf = transform_text(current_dims, *t, rotation_angle@);
            s.0.push(filter_line_text(s.1, if tf.len() == 0 { seq!["null"@] } else { tf }, label@))
        }),
{
    let e_label = stage_label(layer_index, "effects");
    let current = push_filter_stage(lines, current, effect_filters, e_label);
    let m_label = stage_label(layer_index, "mask");
    let current = push_filter_stage(lines, current, mask_filters, m_label);
    let mut tf = transform_filters(current_dims, t, rotation_angle);
    let ghost tfv = strings_view(tf@);
    if tf.len() == 0 {
        tf.push(lit("null"));
    }
    proof {
        assert(strings_view(tf@) =~= if tfv.len() == 0 { seq!["null"@] } else { tfv });
    }
    let last = filter_line(&current, &tf, label);
    let ghost before = strings_view(lines@);
    lines.push(last);
    proof {
        assert(strings_view(lines@) =~= before.push(last@));
    }
}

/// Compiles one video layer into its filter lines. The layer's effect
/// filters, its mask filters (compiled for the size that
/// `visual_layer_mask_dimensions` gives) and, for a rotated layer, the
/// rotation in radians and the bounds of the rotated layer are handed in.
#[verifier::spinoff_prover]
#[verifier::rlimit(40)]
pub fn compile_visual_layer(
    layer_index: usize,
    input_index: u32,
    layer: &RenderVideoLayer,
    clip: &SourceTimerange,
    source_dimensions: LayerDimensions,
    output_dimensions: LayerDimensions,
    frame_rate: &RationalFrameRate,
    output_range: &TargetTimerange,
    alignment: LayerTimelineAlignment,
    effect_filters: &Vec<String>,
    mask_filters: &Vec<String>,
    rotated_dimensions: LayerDimensions,
    rotation_angle: &str,
) -> (r: VisualLayerFilter)
    requires
        layer.transform.position_x <= i32::MAX - 1000,
        layer.transform.position_y >= -(i32::MAX - 1000),
    ensures
        r.segment_id@ == layer.segment_id@,
        r.label@ == layer_label_text(layer_index),
        opt_transition_view(r.transition) == opt_transition_view(layer.transition),
        strings_view(r.lines@) == visual_layer_lines(*layer, layer_index, input_index, *clip, source_dimensions,
            output_dimensions, *frame_rate, *output_range, alignment, strings_view(effect_filters@),
            strings_view(mask_filters@), rotation_angle@),
        r.dimensions == visual_layer_dimensions(*layer, source_dimensions, output_dimensions, alignment, rotated_dimensions),
        r.placement == if full_canvas_identity(layer.transform) {
            LayerPlacement { x: 0, y: 0 }
        } else {
            spec_placement(layer.transform.position_x, layer.transform.position_y, layer.transform.anchor,
                output_dimensions, r.dimensions)
        },
        (r.active_start, r.active_end) == layer_active_range(layer.target_timerange, *clip, *output_range),
{
    let label = layer_label(layer_index);
    let active_start = target_delay_from_output(&layer.target_timerange, output_range);
    let active_end = active_start.saturating_add(clip.duration);
    let delay = match alignment {
        LayerTimelineAlignment::OutputTimeline => active_start,
        LayerTimelineAlignment::SegmentLocal => 0,
    };
    let mut input = u64_to_decimal(input_index as u64);
    append_str(&mut input, ":v");
    let ghost effects = strings_view(effect_filters@);
    let ghost masks = strings_view(mask_filters@);
    let ghost expected = visual_layer_lines(*layer, layer_index, input_index, *clip, source_dimensions,
        output_dimensions, *frame_rate, *output_range, alignment, effects, masks, rotation_angle@);
    if is_full_canvas_identity(&layer.transform) {
        let line = identity_layer_line(layer, &input, &label, clip, delay, source_dimensions, output_dimensions,
            frame_rate, effect_filters, mask_filters);
        let mut lines: Vec<String> = Vec::new();
        lines.push(line);
        proof {
            assert(strings_view(lines@) =~= expected);
        }
        return VisualLayerFilter {
            segment_id: layer.segment_id.clone(),
            label,
            transition: copy_opt_transition(&layer.transition),
            dimensions: output_dimensions,
            placement: LayerPlacement { x: 0, y: 0 },
            active_start,
            active_end,
            lines,
        };
    }
    let (mut lines, current, current_dims) = background_stage_lines(layer, layer_index, input_index, &input, clip, delay,
        source_dimensions, output_dimensions, frame_rate, output_range, alignment);
    proof {
        assert(current_dims == mask_dimensions(*layer, source_dimensions, output_dimensions, alignment));
    }
    finish_layer_stages(&mut lines, current, layer_index, effect_filters, mask_filters, current_dims, &layer.transform,
        rotation_angle, &label);
    proof {
        assert(strings_view(lines@) =~= expected);
    }
    let t = &layer.transform;
    let scaled = scaled_dimensions(current_dims, &t.scale);
    let dimensions = if t.rotation_degrees % 360 != 0 { rotated_dimensions } else { scaled };
    let placement = layer_placement(t.position_x, t.position_y, &t.anchor, output_dimensions, dimensions);
    VisualLayerFilter {
        segment_id: layer.segment_id.clone(),
        label,
        transition: copy_opt_transition(&layer.transition),
        dimensions,
        placement,
        active_start,
        active_end,
        lines,
    }
}

/// The source range of a layer inside the output window: from its retime
/// mapping, else its own ranges clipped to the window.
pub open spec fn clipped_layer_source(layer: RenderVideoLayer, output: TargetTimerange) -> Option<SourceTimerange> {
    match retimed_source_for_output(layer.retime.source_mapping, output) {
        Some(r) => Some(r),
        None => spec_clipped_source(layer.source_timerange, layer.target_timerange, output),
    }
}

/// The source range of a layer shown inside the output window.
pub fn clipped_layer_source_timerange(layer: &RenderVideoLayer, output: &TargetTimerange) -> (r: Option<SourceTimerange>)
    ensures
        r == clipped_layer_source(*layer, *output),
{
    match retimed_source_timerange_for_output(&layer.retime.source_mapping, output) {
        Some(r) => Some(r),
        None => clipped_source_timerange(&layer.source_timerange, &layer.target_timerange, output),
    }
}

/// The size the render graph gives a material, at least 1x1.
pub open spec fn material_size(m: RenderMaterial) -> LayerDimensions {
    LayerDimensions {
        width: match m.width { Some(w) => if w < 1 { 1 } else { w }, None => 1 },
        height: match m.height { Some(h) => if h < 1 { 1 } else { h }, None => 1 },
    }
}

/// The size of the material with this id; the last listed wins.
pub open spec fn material_size_of(materials: Seq<RenderMaterial>, material_id: Seq<char>) -> Option<LayerDimensions>
    decreases materials.len(),
{
    if materials.len() == 0 {
        None
    } else if materials.last().material_id@ == material_id {
        Some(material_size(materials.last()))
    } else {
        material_size_of(materials.drop_last(), material_id)
    }
}

/// The size of the material with this id, if the render graph lists it.
pub fn material_dimensions_by_id(materials: &Vec<RenderMaterial>, material_id: &str) -> (r: Option<LayerDimensions>)
    ensures
        r == material_size_of(materials@, material_id@),
{
    let mut i: usize = materials.len();
    proof {
        assert(materials@.subrange(0, i as int) =~= materials@);
    }
    while i > 0
        invariant
            i <= materials@.len(),
            material_size_of(materials@, material_id@) == material_size_of(materials@.subrange(0, i as int), material_id@),
        decreases i,
    {
        let m = &materials[i - 1];
        proof {
            assert(materials@.subrange(0, i as int).drop_last() =~= materials@.subrange(0, i - 1));
        }
        if str_eq(m.material_id.as_str(), material_id) {
            let w: u32 = match m.width { Some(w) => if w < 1 { 1 } else { w }, None => 1 };
            let h: u32 = match m.height { Some(h) => if h < 1 { 1 } else { h }, None => 1 };
            return Some(LayerDimensions { width: w, height: h });
        }
        i = i - 1;
    }
    proof {
        assert(materials@.subrange(0, 0).len() == 0);
    }
    None
}

/// The size of a layer's material, or the output's when it is not listed.
pub open spec fn layer_source_size(layer: RenderVideoLayer, materials: Seq<RenderMaterial>, output: LayerDimensions) -> LayerDimensions {
    match material_size_of(materials, layer.material_id@) {
        Some(d) => d,
        None => output,
    }
}

/// A layer that draws its material plainly over the whole canvas: visible,
/// with no effects, masks or blending, untransformed, and fitted exactly to
/// the output at its origin.
pub open spec fn renders_full_canvas(layer: RenderVideoLayer, output: LayerDimensions, materials: Seq<RenderMaterial>) -> bool {
    let t = layer.transform;
    let fitted = fit_mode_result(t.fit_mode, layer_source_size(layer, materials, output), output).1;
    &&& layer.visible
    &&& layer.filters@.len() == 0 && !layer.has_mask && !layer.has_visual_mask
    &&& layer.blend_is_normal && layer.visual_blend_is_normal
    &&& t.scale.x_millis == 1_000 && t.scale.y_millis == 1_000
    &&& t.position_x == 0 && t.position_y == 0
    &&& t.anchor.x_millis == 500 && t.anchor.y_millis == 500
    &&& !rotation_active(t)
    &&& t.opacity_millis == 1_000
    &&& !(t.crop.left_millis > 0 || t.crop.right_millis > 0 || t.crop.top_millis > 0 || t.crop.bottom_millis > 0)
    &&& fitted == output
    &&& spec_placement(t.position_x, t.position_y, t.anchor, output, fitted) == (LayerPlacement { x: 0, y: 0 })
}

/// Whether a layer draws its material plainly over the whole canvas.
pub fn visual_layer_renders_full_canvas(
    layer: &RenderVideoLayer,
    output_dimensions: LayerDimensions,
    materials: &Vec<RenderMaterial>,
) -> (r: bool)
    ensures
        r == renders_full_canvas(*layer, output_dimensions, materials@),
{
    let t = &layer.transform;
    if !layer.visible || layer.filters.len() > 0 || layer.has_mask || !layer.blend_is_normal
        || !layer.visual_blend_is_normal || layer.has_visual_mask || t.scale.x_millis != 1_000
        || t.scale.y_millis != 1_000 || t.position_x != 0 || t.position_y != 0 || t.anchor.x_millis != 500
        || t.anchor.y_millis != 500 || t.rotation_degrees % 360 != 0 || t.opacity_millis != 1_000
        || crop_is_active(&t.crop) {
        return false;
    }
    let source = match material_dimensions_by_id(materials, layer.material_id.as_str()) {
        Some(d) => d,
        None => output_dimensions,
    };
    let (_fit, fitted) = fit_mode_filters(t.fit_mode, source, output_dimensions);
    let placement = layer_placement(t.position_x, t.position_y, &t.anchor, output_dimensions, fitted);
    fitted == output_dimensions && placement.x == 0 && placement.y == 0
}

/// A layer that can be concatenated with the others in time: on the first
/// layer's stack, without transition, keyframes or retiming, and covering
/// the canvas plainly.
pub open spec fn concat_eligible(layer: RenderVideoLayer, stack_index: u32, output: LayerDimensions, materials: Seq<RenderMaterial>) -> bool {
    &&& layer.stack_index == stack_index
    &&& layer.transition is None
    &&& !layer.has_keyframes
    &&& is_unity_retime_spec(layer.retime)
    &&& renders_full_canvas(layer, output, materials)
}

/// The filters that fit a concatenated layer to the output afterwards.
pub open spec fn layer_post_filters(layer: RenderVideoLayer, output: LayerDimensions, materials: Seq<RenderMaterial>) -> Seq<Seq<char>> {
    deferred_fit_text(layer.transform.fit_mode, layer_source_size(layer, materials, output), output)
}

/// The active ranges of the first `n` layers that show in the window.
pub open spec fn concat_ranges(layers: Seq<RenderVideoLayer>, window: TargetTimerange, n: int) -> Seq<(u64, u64)>
    decreases n,
{
    if n <= 0 {
        Seq::empty()
    } else {
        let prev = concat_ranges(layers, window, n - 1);
        match spec_active_range(layers[n - 1].target_timerange, window) {
            Some(r) => prev.push(r),
            None => prev,
        }
    }
}

/// The post filters of the first of the first `n` layers that shows in
/// the window.
pub open spec fn first_post_filters(
    layers: Seq<RenderVideoLayer>,
    window: TargetTimerange,
    output: LayerDimensions,
    materials: Seq<RenderMaterial>,
    n: int,
) -> Option<Seq<Seq<char>>>
    decreases n,
{
    if n <= 0 {
        None
    } else {
        let prev = first_post_filters(layers, window, output, materials, n - 1);
        if prev is Some {
            prev
        } else if spec_active_range(layers[n - 1].target_timerange, window) is Some {
            Some(layer_post_filters(layers[n - 1], output, materials))
        } else {
            None
        }
    }
}

/// The post filters shared by the layers when they can be concatenated:
/// every layer is eligible, the layers that show agree on their post
/// filters, and their ranges tile the window.
pub open spec fn concat_post_filters(
    layers: Seq<RenderVideoLayer>,
    window: TargetTimerange,
    output: LayerDimensions,
    materials: Seq<RenderMaterial>,
) -> Option<Seq<Seq<char>>> {
    let n = layers.len() as int;
    let first = first_post_filters(layers, window, output, materials, n);
    if n == 0 {
        None
    } else if exists|k: int| 0 <= k < n && !concat_eligible(#[trigger] layers[k], layers[0].stack_index, output, materials) {
        None
    } else if exists|k: int| 0 <= k < n && spec_active_range(#[trigger] layers[k].target_timerange, window) is Some
        && first != Some(layer_post_filters(layers[k], output, materials)) {
        None
    } else if ranges_tile(concat_ranges(layers, window, n), window.duration) {
        first
    } else {
        None
    }
}

/// Once a layer has shown, the first post filters stay those.
proof fn lemma_first_post_filters_stays(
    layers: Seq<RenderVideoLayer>,
    window: TargetTimerange,
    output: LayerDimensions,
    materials: Seq<RenderMaterial>,
    i: int,
    n: int,
)
    requires
        0 <= i <= n,
        first_post_filters(layers, window, output, materials, i) is Some,
    ensures
        first_post_filters(layers, window, output, materials, n) == first_post_filters(layers, window, output, materials, i),
    decreases n - i,
{
    if n > i {
        lemma_first_post_filters_stays(layers, window, output, materials, i, n - 1);
    }
}

/// The filters that fit the concatenated layers to the output, when the
/// layers can be concatenated in time instead of overlaid.
#[verifier::spinoff_prover]
pub fn concat_visual_post_filters(
    layers: &Vec<RenderVideoLayer>,
    window: &TargetTimerange,
    output_dimensions: LayerDimensions,
    materials: &Vec<RenderMaterial>,
) -> (r: Option<Vec<String>>)
    ensures
        match r {
            Some(v) => concat_post_filters(layers@, *window, output_dimensions, materials@) == Some(strings_view(v@)),
            None => concat_post_filters(layers@, *window, output_dimensions, materials@) is None,
        },
{
    let ghost ls = layers@;
    let ghost ms = materials@;
    if layers.len() == 0 {
        return None;
    }
    let stack_index = layers[0].stack_index;
    let mut ranges: Vec<(u64, u64)> = Vec::new();
    let mut shared: Option<Vec<String>> = None;
    let mut i: usize = 0;
    while i < layers.len()
        invariant
            ls == layers@,
            ms == materials@,
            ls.len() > 0,
            stack_index == ls[0].stack_index,
            i <= ls.len(),
            forall|k: int| 0 <= k < i ==> concat_eligible(#[trigger] ls[k], stack_index, output_dimensions, ms),
            ranges@ == concat_ranges(ls, *window, i as int),
            match shared {
                Some(v) => first_post_filters(ls, *window, output_dimensions, ms, i as int) == Some(strings_view(v@)),
                None => first_post_filters(ls, *window, output_dimensions, ms, i as int) is None,
            },
            forall|k: int| 0 <= k < i && spec_active_range(#[trigger] ls[k].target_timerange, *window) is Some
                ==> first_post_filters(ls, *window, output_dimensions, ms, i as int)
                    == Some(layer_post_filters(ls[k], output_dimensions, ms)),
        decreases ls.len() - i,
    {
        let layer = &layers[i];
        let unity = is_unity_retime(&layer.retime);
        if layer.stack_index != stack_index || layer.transition.is_some() || layer.has_keyframes || !unity
            || !visual_layer_renders_full_canvas(layer, output_dimensions, materials) {
            proof {
                assert(!concat_eligible(ls[i as int], ls[0].stack_index, output_dimensions, ms));
            }
            return None;
        }
        match active_target_range(&layer.target_timerange, window) {
            None => {
                proof {
                    assert(concat_ranges(ls, *window, i + 1) == concat_ranges(ls, *window, i as int));
                }
            },
            Some(range) => {
                ranges.push(range);
                let source = match material_dimensions_by_id(materials, layer.material_id.as_str()) {
                    Some(d) => d,
                    None => output_dimensions,
                };
                let post = deferred_full_canvas_fit_filters(layer.transform.fit_mode, source, output_dimensions);
                proof {
                    assert(strings_view(post@) == layer_post_filters(ls[i as int], output_dimensions, ms));
                }
                match &shared {
                    Some(v) => {
                        if !strings_equal(v, &post) {
                            proof {
                                lemma_first_post_filters_stays(ls, *window, output_dimensions, ms, i as int, ls.len() as int);
                                assert(spec_active_range(ls[i as int].target_timerange, *window) is Some);
                            }
                            return None;
                        }
                    },
                    None => {
                        shared = Some(post);
                    },
                }
            },
        }
        proof {
            assert(concat_eligible(ls[i as int], stack_index, output_dimensions, ms));
            if first_post_filters(ls, *window, output_dimensions, ms, i as int) is Some {
                lemma_first_post_filters_stays(ls, *window, output_dimensions, ms, i as int, i + 1);
            }
        }
        i = i + 1;
    }
    let ghost n = ls.len() as int;
    proof {
        assert(!(exists|k: int| 0 <= k < n && !concat_eligible(#[trigger] ls[k], ls[0].stack_index, output_dimensions, ms)));
    }
    if ranges_cover_output_contiguously(&ranges, window.duration) {
        shared
    } else {
        None
    }
}

} // verus!
