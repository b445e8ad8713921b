//! The filter script of a render: every video layer compiled and laid out,
//! the text side files burnt in, then the audio mixed.
use vstd::prelude::*;

use crate::compiler::ass::{join_strings, joined, RenderTextPlan};
use crate::compiler::effects::RenderAudioMixDiagnostic;
use crate::compiler::filters::{
    append_audio_output_filters, append_video_output_filters, canvas_background_color_arg,
    compose_concatenated_visual_layers, compose_placed_visual_layers, output_layer_dimensions, subtitle_lines,
    LayerDimensions, RenderAudioMix, VisualLayerFilter, AudioLabel, all_tracks_tile, audio_output_lines,
    concat_lines, group_mix_label, label_names, label_track_ids, placed_layer_lines, track_labels,
};
use crate::compiler::ass::{sorted_distinct_of, strictly_sorted};
use crate::compiler::filters::{audio_concat_possible, audio_entries, entry_track_ids};
use crate::text::{lemma_seq_char_lt_asymmetric, lemma_seq_char_lt_irreflexive, seq_char_lt};
use crate::compiler::job::{
    input_index_by_material, input_index_of, missing_input, output_timerange, profile_parts, CompileContext,
    FfmpegCompileError, FfmpegCompileErrorKind, FfmpegInput, FfmpegSidecar, RenderMaterial, RenderOutputProfile,
    RenderVisualDiagnostic, path_join,
};
use crate::compiler::streams::{
    audio_label_view, audio_stream_error, audio_streams, compile_audio_streams, mix_diagnostic_view, stream_alignment,
};
use crate::compiler::transitions::{
    append_transition_outputs, compiled_transitions, transition_layer, position_of, specs_fit_layers, split_lines,
    spec_from_layer, split_line_text, split_transition_layers, transition_endpoints, transition_sources, transition_specs,
    TransitionFilterSpec,
};
use crate::compiler::filters::{clipped_audio_source, spec_target_delay, transition_label_text, AudioTimelineAlignment};
use crate::compiler::visual::{
    clipped_layer_source, clipped_layer_source_timerange, compile_visual_layer, concat_post_filters,
    concat_visual_post_filters, layer_active_range, layer_label_text, layer_source_size, material_dimensions_by_id,
    visual_layer_dimensions, visual_layer_lines, LayerTimelineAlignment, RenderVideoLayer,
};
use crate::compiler::filters::{
    concatenated_layer_lines, full_canvas_identity, layer_inputs, opt_transition_view, overlay_line,
    post_concat_lines, spec_placement, LayerPlacement,
};
use crate::compiler::job::{seconds_text, RenderIntentSupport};
use crate::text::{decimal, signed_decimal};
use crate::engine::model::{CanvasBackground, RationalFrameRate};
use crate::text::{append_str, clone_opt_string, clone_strings, lit, strings_view};

verus! {

/// What a render plan holds that the filter script and the job read.
#[derive(Debug, Clone)]
pub struct RenderGraphPlan {
    pub draft_id: String,
    pub output_profile: RenderOutputProfile,
    pub canvas_background: CanvasBackground,
    pub materials: Vec<RenderMaterial>,
    pub video_layers: Vec<RenderVideoLayer>,
    pub text: RenderTextPlan,
    pub audio_mixes: Vec<RenderAudioMix>,
    pub visual_diagnostics: Vec<RenderVisualDiagnostic>,
}

/// What a video layer needs that is computed outside the filter script:
/// its effect filters, its mask filters, and for a rotated layer the
/// rotation in radians and the bounds of the rotated layer.
#[derive(Debug, Clone)]
pub struct LayerExtras {
    pub effect_filters: Vec<String>,
    pub mask_filters: Vec<String>,
    pub rotated_dimensions: LayerDimensions,
    pub rotation_angle: String,
}

/// A generated filter script: where it goes, its text, whether it has an
/// audio output, and the diagnostics of the audio it mixes.
#[derive(Debug, Clone)]
pub struct GeneratedFilterScript {
    pub path: String,
    pub contents: String,
    pub has_audio_output: bool,
    pub diagnostics: Vec<RenderAudioMixDiagnostic>,
}

/// The output size of a plan, at least 1x1.
pub open spec fn plan_output_dimensions(plan: RenderGraphPlan) -> LayerDimensions {
    let d = profile_parts(plan.output_profile).1;
    LayerDimensions { width: if d.width < 1 { 1 } else { d.width }, height: if d.height < 1 { 1 } else { d.height } }
}

/// How the layers of a plan are aligned: on their own timelines when they
/// are concatenated, else on the output timeline.
pub open spec fn plan_alignment(plan: RenderGraphPlan) -> LayerTimelineAlignment {
    if concat_post_filters(plan.video_layers@, profile_parts(plan.output_profile).3, plan_output_dimensions(plan),
        plan.materials@) is Some {
        LayerTimelineAlignment::SegmentLocal
    } else {
        LayerTimelineAlignment::OutputTimeline
    }
}

/// The first of the first `n` layers whose material no input reads.
pub open spec fn first_unread_layer(layers: Seq<RenderVideoLayer>, inputs: Seq<FfmpegInput>, n: int) -> Option<int>
    decreases n,
{
    if n <= 0 {
        None
    } else {
        let prev = first_unread_layer(layers, inputs, n - 1);
        if prev is Some {
            prev
        } else if input_index_of(inputs, layers[n - 1].material_id@) is None {
            Some(n - 1)
        } else {
            None
        }
    }
}

/// The lines of the first `n` layers that show inside the output window,
/// each compiled with its own index.
pub open spec fn layer_block(plan: RenderGraphPlan, inputs: Seq<FfmpegInput>, extras: Seq<LayerExtras>, n: int) -> Seq<Seq<char>>
    decreases n,
{
    if n <= 0 {
        Seq::empty()
    } else {
        let prev = layer_block(plan, inputs, extras, n - 1);
        let layer = plan.video_layers@[n - 1];
        let output = profile_parts(plan.output_profile).3;
        match clipped_layer_source(layer, output) {
            None => prev,
            Some(clip) => prev + visual_layer_lines(layer, (n - 1) as usize,
                input_index_of(inputs, layer.material_id@)->Some_0, clip,
                layer_source_size(layer, plan.materials@, plan_output_dimensions(plan)), plan_output_dimensions(plan),
                profile_parts(plan.output_profile).2, output, plan_alignment(plan),
                strings_view(extras[n - 1].effect_filters@), strings_view(extras[n - 1].mask_filters@),
                extras[n - 1].rotation_angle@),
        }
    }
}

/// Whether any of the first `n` layers shows inside the output window.
pub open spec fn any_layer_shows(plan: RenderGraphPlan, n: int) -> bool
    decreases n,
{
    if n <= 0 {
        false
    } else {
        any_layer_shows(plan, n - 1)
            || clipped_layer_source(plan.video_layers@[n - 1], profile_parts(plan.output_profile).3) is Some
    }
}

/// Whether any audio segment plays inside the output window.
pub open spec fn any_audio_plays(mixes: Seq<RenderAudioMix>, output: crate::engine::model::TargetTimerange, n: int) -> bool
    decreases n,
{
    if n <= 0 {
        false
    } else {
        any_audio_plays(mixes, output, n - 1) || clipped_audio_source(mixes[n - 1], output) is Some
    }
}

/// Whether the profile renders audio: everything but a single frame.
pub open spec fn profile_has_audio(p: RenderOutputProfile) -> bool {
    !(p is PreviewFrame)
}

/// Why the filter script cannot be generated, if it cannot, in the order
/// the checks run: a layer no input reads, text with no side file, then an
/// audio segment that cannot be compiled.
pub open spec fn filter_script_error(plan: RenderGraphPlan, inputs: Seq<FfmpegInput>, ass_sidecars: Seq<FfmpegSidecar>) -> Option<FfmpegCompileErrorKind> {
    let output = profile_parts(plan.output_profile).3;
    if first_unread_layer(plan.video_layers@, inputs, plan.video_layers@.len() as int) is Some {
        Some(FfmpegCompileErrorKind::MissingInputMaterial)
    } else if plan.text.text_overlays@.len() > 0 && ass_sidecars.len() == 0 {
        Some(FfmpegCompileErrorKind::MissingTextFont)
    } else if !profile_has_audio(plan.output_profile) {
        None
    } else {
        match audio_stream_error(plan.audio_mixes@, inputs, output, plan.audio_mixes@.len() as int) {
            Some(k) => if plan.audio_mixes@[k].volume_keyframes@.len() > 0 {
                Some(FfmpegCompileErrorKind::UnsupportedAudioAutomation)
            } else {
                Some(FfmpegCompileErrorKind::MissingInputMaterial)
            },
            None => None,
        }
    }
}

/// The material the filter script's error names: the layer or audio
/// segment whose material no input reads, or whose volume is keyframed;
/// none for missing text side files.
pub open spec fn filter_script_error_material(plan: RenderGraphPlan, inputs: Seq<FfmpegInput>, ass_sidecars: Seq<FfmpegSidecar>) -> Option<String> {
    let output = profile_parts(plan.output_profile).3;
    match first_unread_layer(plan.video_layers@, inputs, plan.video_layers@.len() as int) {
        Some(k) => Some(plan.video_layers@[k].material_id),
        None => if plan.text.text_overlays@.len() > 0 && ass_sidecars.len() == 0 {
            None
        } else {
            match audio_stream_error(plan.audio_mixes@, inputs, output, plan.audio_mixes@.len() as int) {
                Some(k) => Some(plan.audio_mixes@[k].material_id),
                None => None,
            }
        },
    }
}

/// The line that fills the output window with the canvas colour.
pub open spec fn canvas_line(plan: RenderGraphPlan) -> Seq<char> {
    let d = plan_output_dimensions(plan);
    let rate = profile_parts(plan.output_profile).2;
    "color=c="@ + crate::compiler::filters::canvas_color_text(plan.canvas_background) + ":s="@
        + crate::text::decimal(d.width as nat) + "x"@ + crate::text::decimal(d.height as nat) + ":r="@
        + crate::text::decimal(rate.numerator as nat) + "/"@ + crate::text::decimal(rate.denominator as nat) + ":d="@
        + crate::compiler::job::seconds_text(profile_parts(plan.output_profile).3.duration) + "[vbase0]"@
}

/// The end of the video: the side files burnt in from stream `v`, then the
/// conversion to `yuv420p` as `vout`.
pub open spec fn video_tail(v: Seq<char>, sidecars: Seq<FfmpegSidecar>) -> Seq<Seq<char>> {
    let s = subtitle_lines(v, sidecars, sidecars.len() as int);
    s.0 + seq!["["@ + s.1 + "]format=yuv420p[vout]"@]
}

/// The video lines of a script: the lines of the layers that show, their
/// layout, and the end of the video. With no layer showing, the layout is
/// the canvas alone; layers concatenated in time are joined and fitted;
/// otherwise each transition's layers are split into copies, each handed-in
/// transition filter is drawn, and the layers and transition outputs are
/// laid over the canvas in order.
pub open spec fn video_part_matches(
    plan: RenderGraphPlan,
    inputs: Seq<FfmpegInput>,
    extras: Seq<LayerExtras>,
    transition_filters: Seq<Option<String>>,
    sidecars: Seq<FfmpegSidecar>,
    video: Seq<Seq<char>>,
) -> bool {
    let block = layer_block(plan, inputs, extras, plan.video_layers@.len() as int);
    &&& block.len() <= video.len()
    &&& video.subrange(0, block.len() as int) == block
    &&& !any_layer_shows(plan, plan.video_layers@.len() as int) ==> video == seq![canvas_line(plan)] + video_tail("vbase0"@, sidecars)
    &&& {
        let ss = shown_layers(plan, extras, plan.video_layers@.len() as int);
        let post = concat_post_filters(plan.video_layers@, profile_parts(plan.output_profile).3, plan_output_dimensions(plan),
            plan.materials@);
        &&& (ss.len() > 0 && post is None ==> {
            let ts = sum_transitions(ss, profile_parts(plan.output_profile).3);
            let fs = transition_filter_seq(transition_filters, ts.len());
            let items = layout_items(ss, ts, fs);
            video == block + sum_split_lines(ss, ts, ss.len() as int) + drawn_transition_lines(fs) + placed_items(plan, items)
                + video_tail("vbase"@ + decimal(items.len()), sidecars)
        })
        &&& (ss.len() > 0 && post is Some ==>
            video == block + concat_lines_of(ss, post->Some_0)
                + video_tail(if ss.len() == 1 && post->Some_0.len() == 0 { ss[0].0 } else { "vconcat0"@ }, sidecars))
    }
}

/// Audio labels by their plain values.
pub open spec fn labels_view(ls: Seq<AudioLabel>) -> Seq<(Seq<char>, Seq<char>, u64, u64)> {
    ls.map_values(|l: AudioLabel| audio_label_view(l))
}

/// The lines mixing the audio streams `ls` into `aout`: concatenated per
/// track first when that is allowed and every track tiles the output.
pub open spec fn audio_output_part(ls: Seq<AudioLabel>, output: crate::engine::model::TargetTimerange, allow_track_concat: bool, added: Seq<Seq<char>>) -> bool {
    let ids = choose|ids: Seq<Seq<char>>| sorted_distinct_of(ids, label_track_ids(ls));
    if allow_track_concat && all_tracks_tile(ls, ids, output.duration) {
        added == concat_lines(ls, ids, ids.len() as int)
            + audio_output_lines(Seq::new(ids.len(), |k: int| group_mix_label(track_labels(ls, ids[k]), k)))
    } else {
        added == audio_output_lines(label_names(ls))
    }
}

/// The audio lines of a script when the segments are concatenated per
/// track (`concat`) or not: the streams, then their mix.
pub open spec fn audio_part_for(
    plan: RenderGraphPlan,
    inputs: Seq<FfmpegInput>,
    tempos: Seq<Seq<Seq<char>>>,
    concat: bool,
    audio: Seq<Seq<char>>,
) -> bool {
    let ms = plan.audio_mixes@;
    let output = profile_parts(plan.output_profile).3;
    let s = audio_streams(ms, inputs, output, stream_alignment(concat), tempos, ms.len() as int);
    &&& s.0.len() <= audio.len()
    &&& audio.subrange(0, s.0.len() as int) == s.0
    &&& exists|ls: Seq<AudioLabel>| #[trigger] labels_view(ls) == s.1
        && audio_output_part(ls, output, concat, audio.subrange(s.0.len() as int, audio.len() as int))
}

/// The tracks of the audio segments that play, listed once each in
/// character order.
pub open spec fn audio_track_order(ms: Seq<RenderAudioMix>, output: crate::engine::model::TargetTimerange) -> Seq<Seq<char>> {
    choose|ids: Seq<Seq<char>>| sorted_distinct_of(ids, entry_track_ids(audio_entries(ms, output, ms.len() as int)))
}

/// Whether the audio is concatenated per track rather than mixed as
/// placed: every track's segments tile the output window.
pub open spec fn audio_concat_decision(ms: Seq<RenderAudioMix>, output: crate::engine::model::TargetTimerange) -> bool {
    audio_concat_possible(ms, output, audio_track_order(ms, output))
}

/// A list of the distinct strings of a collection in character order is
/// unique.
proof fn lemma_sorted_distinct_unique(a: Seq<Seq<char>>, b: Seq<Seq<char>>)
    requires
        strictly_sorted(a),
        strictly_sorted(b),
        forall|x: Seq<char>| a.contains(x) <==> b.contains(x),
    ensures
        a == b,
    decreases a.len(),
{
    if a.len() == 0 {
        if b.len() > 0 {
            assert(b.contains(b[0]));
        }
        assert(a =~= b);
    } else if b.len() == 0 {
        assert(a.contains(a[0]));
    } else {
        assert(a.contains(a[0]));
        assert(b.contains(b[0]));
        let j = choose|j: int| 0 <= j < b.len() && b[j] == a[0];
        let i = choose|i: int| 0 <= i < a.len() && a[i] == b[0];
        if j > 0 {
            assert(seq_char_lt(b[0], b[j]));
            if i > 0 {
                assert(seq_char_lt(a[0], a[i]));
                lemma_seq_char_lt_asymmetric(b[0], a[0]);
            } else {
                lemma_seq_char_lt_irreflexive(a[0]);
            }
        }
        assert(a[0] == b[0]);
        let a1 = a.drop_first();
        let b1 = b.drop_first();
        assert forall|x: Seq<char>| a1.contains(x) <==> b1.contains(x) by {
            if a1.contains(x) {
                let k = choose|k: int| 0 <= k < a1.len() && a1[k] == x;
                assert(a[k + 1] == x);
                assert(seq_char_lt(a[0], a[k + 1]));
                lemma_seq_char_lt_irreflexive(x);
                assert(b.contains(x));
                let m = choose|m: int| 0 <= m < b.len() && b[m] == x;
                assert(m != 0);
                assert(b1[m - 1] == x);
            }
            if b1.contains(x) {
                let k = choose|k: int| 0 <= k < b1.len() && b1[k] == x;
                assert(b[k + 1] == x);
                assert(seq_char_lt(b[0], b[k + 1]));
                lemma_seq_char_lt_irreflexive(x);
                assert(a.contains(x));
                let m = choose|m: int| 0 <= m < a.len() && a[m] == x;
                assert(m != 0);
                assert(a1[m - 1] == x);
            }
        }
        assert forall|p: int, q: int| 0 <= p < q < a1.len() implies seq_char_lt(#[trigger] a1[p], #[trigger] a1[q]) by {
            assert(seq_char_lt(a[p + 1], a[q + 1]));
        }
        assert forall|p: int, q: int| 0 <= p < q < b1.len() implies seq_char_lt(#[trigger] b1[p], #[trigger] b1[q]) by {
            assert(seq_char_lt(b[p + 1], b[q + 1]));
        }
        lemma_sorted_distinct_unique(a1, b1);
        assert(a.len() == b.len());
        assert forall|k: int| 0 <= k < a.len() implies a[k] == b[k] by {
            if k > 0 {
                assert(a[k] == a1[k - 1]);
                assert(b[k] == b1[k - 1]);
            }
        }
        assert(a =~= b);
    }
}

/// The audio lines of a script: none when the profile has no audio or no
/// segment plays, else the streams and their mix.
pub open spec fn audio_part_matches(plan: RenderGraphPlan, inputs: Seq<FfmpegInput>, tempos: Seq<Seq<Seq<char>>>, audio: Seq<Seq<char>>) -> bool {
    if profile_has_audio(plan.output_profile)
        && any_audio_plays(plan.audio_mixes@, profile_parts(plan.output_profile).3, plan.audio_mixes@.len() as int) {
        audio_part_for(plan, inputs, tempos,
            audio_concat_decision(plan.audio_mixes@, profile_parts(plan.output_profile).3), audio)
    } else {
        audio.len() == 0
    }
}

/// The lines of a script: its video lines, then its audio lines.
pub open spec fn script_lines_match(
    plan: RenderGraphPlan,
    inputs: Seq<FfmpegInput>,
    extras: Seq<LayerExtras>,
    transition_filters: Seq<Option<String>>,
    sidecars: Seq<FfmpegSidecar>,
    tempos: Seq<Seq<Seq<char>>>,
    lines: Seq<Seq<char>>,
) -> bool {
    exists|k: int| 0 <= k <= lines.len() && video_part_matches(plan, inputs, extras, transition_filters, sidecars, #[trigger] lines.subrange(0, k))
        && audio_part_matches(plan, inputs, tempos, lines.subrange(k, lines.len() as int))
}

/// The diagnostics of the audio a script mixes.
pub open spec fn script_diagnostics(plan: RenderGraphPlan, inputs: Seq<FfmpegInput>, tempos: Seq<Seq<Seq<char>>>) -> Seq<(Seq<char>, Seq<char>, Seq<char>, Seq<char>, crate::compiler::job::RenderIntentSupport, Seq<char>)> {
    if profile_has_audio(plan.output_profile) {
        audio_streams(plan.audio_mixes@, inputs, profile_parts(plan.output_profile).3, AudioTimelineAlignment::OutputTimeline,
            tempos, plan.audio_mixes@.len() as int).2
    } else {
        Seq::empty()
    }
}

/// A generated filter script, by its path, text, audio flag and audio
/// diagnostics: where it goes, whether the plan has an audio output, and
/// its lines joined by `;` and a newline.
pub open spec fn filter_script_ok(
    path: Seq<char>,
    contents: Seq<char>,
    has_audio_output: bool,
    diagnostics: Seq<(Seq<char>, Seq<char>, Seq<char>, Seq<char>, crate::compiler::job::RenderIntentSupport, Seq<char>)>,
    plan: RenderGraphPlan,
    artifact_dir: Seq<char>,
    inputs: Seq<FfmpegInput>,
    sidecars: Seq<FfmpegSidecar>,
    job_id: Seq<char>,
    extras: Seq<LayerExtras>,
    transition_filters: Seq<Option<String>>,
    tempos: Seq<Seq<Seq<char>>>,
) -> bool {
    &&& filter_script_error(plan, inputs, sidecars) is None
    &&& path == path_join(artifact_dir, job_id + "-filter.ffscript"@)
    &&& has_audio_output == plan_has_audio_output(plan)
    &&& diagnostics == script_diagnostics(plan, inputs, tempos)
    &&& exists|lines: Seq<Seq<char>>| #[trigger] joined(lines, ";\n"@) == contents
        && script_lines_match(plan, inputs, extras, transition_filters, sidecars, tempos, lines)
}

/// Whether a plan's script has an audio output: the profile has audio and
/// some segment plays.
pub open spec fn plan_has_audio_output(plan: RenderGraphPlan) -> bool {
    profile_has_audio(plan.output_profile)
        && any_audio_plays(plan.audio_mixes@, profile_parts(plan.output_profile).3, plan.audio_mixes@.len() as int)
}

/// A compiled layer by what laying it out reads: its label, place, active
/// range, transition and segment.
pub type LayerSummary = (Seq<char>, LayerPlacement, u64, u64, Option<(Seq<char>, Seq<char>, RenderIntentSupport, crate::engine::model::TargetTimerange)>, Seq<char>);

/// A compiled layer by what laying it out reads.
pub open spec fn layer_summary(v: VisualLayerFilter) -> LayerSummary {
    (v.label@, v.placement, v.active_start, v.active_end, opt_transition_view(v.transition), v.segment_id@)
}

/// The summary of layer `k` of a plan, compiled for source range `clip`.
pub open spec fn expected_summary(plan: RenderGraphPlan, extras: Seq<LayerExtras>, k: int, clip: crate::engine::model::SourceTimerange) -> LayerSummary {
    let layer = plan.video_layers@[k];
    let out = plan_output_dimensions(plan);
    let dims = visual_layer_dimensions(layer, layer_source_size(layer, plan.materials@, out), out, plan_alignment(plan),
        extras[k].rotated_dimensions);
    let range = layer_active_range(layer.target_timerange, clip, profile_parts(plan.output_profile).3);
    let t = layer.transform;
    (
        layer_label_text(k as usize),
        if full_canvas_identity(t) { LayerPlacement { x: 0, y: 0 } } else { spec_placement(t.position_x, t.position_y, t.anchor, out, dims) },
        range.0,
        range.1,
        opt_transition_view(layer.transition),
        layer.segment_id@,
    )
}

/// The summaries of the first `n` layers that show, in order.
pub open spec fn shown_layers(plan: RenderGraphPlan, extras: Seq<LayerExtras>, n: int) -> Seq<LayerSummary>
    decreases n,
{
    if n <= 0 {
        Seq::empty()
    } else {
        let prev = shown_layers(plan, extras, n - 1);
        match clipped_layer_source(plan.video_layers@[n - 1], profile_parts(plan.output_profile).3) {
            None => prev,
            Some(clip) => prev.push(expected_summary(plan, extras, n - 1, clip)),
        }
    }
}



/// `[label]` for each summarised layer, joined.
pub open spec fn summary_inputs(ss: Seq<LayerSummary>) -> Seq<char>
    decreases ss.len(),
{
    if ss.len() == 0 {
        Seq::empty()
    } else {
        summary_inputs(ss.drop_last()) + "["@ + ss.last().0 + "]"@
    }
}

/// The lines concatenating the shown layers in time, then the filters
/// that fit them to the output.
pub open spec fn concat_lines_of(ss: Seq<LayerSummary>, post: Seq<Seq<char>>) -> Seq<Seq<char>> {
    if ss.len() == 1 {
        post_concat_lines(ss[0].0, "vconcat0"@, post)
    } else {
        let raw = if post.len() == 0 { "vconcat0"@ } else { "vconcatraw0"@ };
        seq![summary_inputs(ss) + "concat=n="@ + decimal(ss.len()) + ":v=1:a=0["@ + raw + "]"@]
            + post_concat_lines(raw, "vconcat0"@, post)
    }
}



proof fn lemma_summary_lines(vls: Seq<VisualLayerFilter>, ss: Seq<LayerSummary>)
    requires
        vls.map_values(|v: VisualLayerFilter| layer_summary(v)) == ss,
    ensures
        layer_inputs(vls) == summary_inputs(ss),
    decreases vls.len(),
{
    if vls.len() > 0 {
        assert(vls.drop_last().map_values(|v: VisualLayerFilter| layer_summary(v)) =~= ss.drop_last());
        lemma_summary_lines(vls.drop_last(), ss.drop_last());
        assert(ss.last() == layer_summary(vls.last()));
    }
}

/// A transition by what laying it out reads: its two layers, its output
/// label, and where and when its output shows.
pub type TransitionSummary = (int, int, Seq<char>, LayerPlacement, u64, u64);

/// A stream laid over the canvas: its label, place and active range.
pub type LayoutItem = (Seq<char>, LayerPlacement, u64, u64);

/// The first of the first `n` summarised layers that draws segment `id`.
pub open spec fn sum_position_of(ss: Seq<LayerSummary>, id: Seq<char>, n: int) -> Option<int>
    decreases n,
{
    if n <= 0 {
        None
    } else {
        let prev = sum_position_of(ss, id, n - 1);
        if prev is Some {
            prev
        } else if ss[n - 1].5 == id {
            Some(n - 1)
        } else {
            None
        }
    }
}

/// The two layers a summarised layer's transition joins, when it starts a
/// supported transition between two different layers.
pub open spec fn sum_endpoints(s: LayerSummary, ss: Seq<LayerSummary>) -> Option<(int, int)> {
    match s.4 {
        Some(tv) => if tv.2 == RenderIntentSupport::Supported {
            let f = sum_position_of(ss, tv.0, ss.len() as int);
            let g = sum_position_of(ss, tv.1, ss.len() as int);
            if f is Some && g is Some && f->Some_0 != g->Some_0 {
                Some((f->Some_0, g->Some_0))
            } else {
                None
            }
        } else {
            None
        },
        None => None,
    }
}

/// The first `n` summarised layers that start a transition, in order.
pub open spec fn sum_sources(ss: Seq<LayerSummary>, n: int) -> Seq<int>
    decreases n,
{
    if n <= 0 {
        Seq::empty()
    } else {
        sum_sources(ss, n - 1) + (if sum_endpoints(ss[n - 1], ss) is Some { seq![n - 1] } else { Seq::empty() })
    }
}

/// The transition layer `src` starts: its ends, output label, the place
/// of the layer it starts from, and its window inside the output.
pub open spec fn sum_transition(ss: Seq<LayerSummary>, src: int, output: crate::engine::model::TargetTimerange) -> TransitionSummary {
    let e = sum_endpoints(ss[src], ss)->Some_0;
    let tv = ss[src].4->Some_0;
    let start = spec_target_delay(tv.3, output);
    (e.0, e.1, transition_label_text(tv.0, tv.1), ss[e.0].1, start,
        (if start + tv.3.duration > u64::MAX { u64::MAX as int } else { start + tv.3.duration }) as u64)
}

/// The transitions of the summarised layers, in the order they start.
pub open spec fn sum_transitions(ss: Seq<LayerSummary>, output: crate::engine::model::TargetTimerange) -> Seq<TransitionSummary> {
    let srcs = sum_sources(ss, ss.len() as int);
    Seq::new(srcs.len(), |k: int| sum_transition(ss, srcs[k], output))
}

/// How many of the first `k` transitions use layer `j`, as either end.
pub open spec fn sum_uses(ts: Seq<TransitionSummary>, j: int, k: int) -> nat
    decreases k,
{
    if k <= 0 {
        0
    } else {
        sum_uses(ts, j, k - 1) + (if ts[k - 1].0 == j { 1nat } else { 0nat }) + (if ts[k - 1].1 == j { 1nat } else { 0nat })
    }
}

/// The split lines of the first `m` layers that a transition uses.
pub open spec fn sum_split_lines(ss: Seq<LayerSummary>, ts: Seq<TransitionSummary>, m: int) -> Seq<Seq<char>>
    decreases m,
{
    if m <= 0 {
        Seq::empty()
    } else {
        let u = sum_uses(ts, m - 1, ts.len() as int);
        sum_split_lines(ss, ts, m - 1) + (if u > 0 { seq![split_line_text(ss[m - 1].0, u)] } else { Seq::empty() })
    }
}

/// The filter handed in for each of the first `n` transitions; none past
/// the end of the list.
pub open spec fn transition_filter_seq(tf: Seq<Option<String>>, n: nat) -> Seq<Option<String>> {
    Seq::new(n, |k: int| if k < tf.len() { tf[k] } else { None })
}

/// The lines of the transitions whose filter was handed in, in order.
pub open spec fn drawn_transition_lines(fs: Seq<Option<String>>) -> Seq<Seq<char>> {
    let c = compiled_transitions(fs, fs.len() as int);
    Seq::new(c.len(), |q: int| fs[c[q]]->Some_0@)
}

/// The streams laid over the canvas: each layer (under its main copy's
/// label when a transition uses it), then each drawn transition's output.
pub open spec fn layout_items(ss: Seq<LayerSummary>, ts: Seq<TransitionSummary>, fs: Seq<Option<String>>) -> Seq<LayoutItem> {
    let c = compiled_transitions(fs, fs.len() as int);
    Seq::new(ss.len(), |j: int| (
        if sum_uses(ts, j, ts.len() as int) > 0 { ss[j].0 + "main"@ } else { ss[j].0 },
        ss[j].1, ss[j].2, ss[j].3,
    )) + Seq::new(c.len(), |q: int| (ts[c[q]].2, ts[c[q]].3, ts[c[q]].4, ts[c[q]].5))
}

/// A stream by its layout.
pub open spec fn layout_item(v: VisualLayerFilter) -> LayoutItem {
    (v.label@, v.placement, v.active_start, v.active_end)
}

/// The overlay line of item `k` over the composition so far.
pub open spec fn item_overlay_line(s: LayoutItem, k: int) -> Seq<char> {
    let current = "vbase"@ + decimal(k as nat);
    "["@ + current + "]["@ + s.0 + "]overlay=x="@ + signed_decimal(s.1.x as int) + ":y="@
        + signed_decimal(s.1.y as int) + ":enable='between(t,"@ + seconds_text(s.2) + ","@
        + seconds_text(s.3) + ")'["@ + "vbase"@ + decimal((k + 1) as nat) + "]"@
}

/// The canvas of a plan, then each item laid over it in order.
pub open spec fn placed_items(plan: RenderGraphPlan, items: Seq<LayoutItem>) -> Seq<Seq<char>> {
    seq![canvas_line(plan)] + Seq::new(items.len(), |k: int| item_overlay_line(items[k], k))
}

/// A canvas of the given colour, size, rate and duration, then each item
/// laid over it in order.
pub open spec fn placed_item_lines(
    background: Seq<char>,
    width: u32,
    height: u32,
    frame_rate: RationalFrameRate,
    output_duration: u64,
    items: Seq<LayoutItem>,
) -> Seq<Seq<char>> {
    placed_layer_lines(background, width, height, frame_rate, output_duration, Seq::empty()).take(1)
        + Seq::new(items.len(), |k: int| item_overlay_line(items[k], k))
}

/// A transition spec carries the summary's ends, label, place and window.
pub open spec fn spec_matches(s: TransitionFilterSpec, t: TransitionSummary) -> bool {
    &&& s.from_index == t.0
    &&& s.to_index == t.1
    &&& s.output_label@ == t.2
    &&& s.placement == t.3
    &&& s.active_start == t.4
    &&& s.active_end == t.5
}

proof fn lemma_position_matches(vls: Seq<VisualLayerFilter>, ss: Seq<LayerSummary>, id: Seq<char>, n: int)
    requires
        vls.map_values(|v: VisualLayerFilter| layer_summary(v)) == ss,
        0 <= n <= vls.len(),
    ensures
        position_of(vls, id, n) == sum_position_of(ss, id, n),
    decreases n,
{
    if n > 0 {
        lemma_position_matches(vls, ss, id, n - 1);
        assert(ss[n - 1] == layer_summary(vls[n - 1]));
    }
}

proof fn lemma_endpoints_match(vls: Seq<VisualLayerFilter>, ss: Seq<LayerSummary>, k: int)
    requires
        vls.map_values(|v: VisualLayerFilter| layer_summary(v)) == ss,
        0 <= k < vls.len(),
    ensures
        transition_endpoints(vls[k], vls) == sum_endpoints(ss[k], ss),
{
    assert(ss[k] == layer_summary(vls[k]));
    assert(ss.len() == vls.len());
    match vls[k].transition {
        Some(t) => {
            lemma_position_matches(vls, ss, t.from_segment_id@, vls.len() as int);
            lemma_position_matches(vls, ss, t.to_segment_id@, vls.len() as int);
        },
        None => {},
    }
}

proof fn lemma_sources_match(vls: Seq<VisualLayerFilter>, ss: Seq<LayerSummary>, n: int)
    requires
        vls.map_values(|v: VisualLayerFilter| layer_summary(v)) == ss,
        0 <= n <= vls.len(),
    ensures
        transition_sources(vls, n) == sum_sources(ss, n),
    decreases n,
{
    if n > 0 {
        lemma_sources_match(vls, ss, n - 1);
        lemma_endpoints_match(vls, ss, n - 1);
    }
}

proof fn lemma_sum_sources_bound(ss: Seq<LayerSummary>, n: int)
    requires
        0 <= n,
    ensures
        forall|q: int| 0 <= q < sum_sources(ss, n).len() ==> 0 <= #[trigger] sum_sources(ss, n)[q] < n,
    decreases n,
{
    if n > 0 {
        lemma_sum_sources_bound(ss, n - 1);
        assert forall|q: int| 0 <= q < sum_sources(ss, n).len() implies 0 <= #[trigger] sum_sources(ss, n)[q] < n by {
            if q < sum_sources(ss, n - 1).len() {
                assert(sum_sources(ss, n)[q] == sum_sources(ss, n - 1)[q]);
            }
        }
    }
}

proof fn lemma_uses_match(specs: Seq<TransitionFilterSpec>, ts: Seq<TransitionSummary>, j: int, k: int)
    requires
        specs.len() == ts.len(),
        0 <= k <= specs.len(),
        forall|q: int| 0 <= q < specs.len() ==> #[trigger] specs[q].from_index == ts[q].0 && specs[q].to_index == ts[q].1,
    ensures
        crate::compiler::transitions::uses_count(specs, j, k) == sum_uses(ts, j, k),
    decreases k,
{
    if k > 0 {
        lemma_uses_match(specs, ts, j, k - 1);
        assert(specs[k - 1].from_index == ts[k - 1].0);
    }
}

proof fn lemma_split_match(vls: Seq<VisualLayerFilter>, ss: Seq<LayerSummary>, specs: Seq<TransitionFilterSpec>, ts: Seq<TransitionSummary>, m: int)
    requires
        vls.map_values(|v: VisualLayerFilter| layer_summary(v)) == ss,
        0 <= m <= vls.len(),
        specs.len() == ts.len(),
        forall|q: int| 0 <= q < specs.len() ==> #[trigger] specs[q].from_index == ts[q].0 && specs[q].to_index == ts[q].1,
    ensures
        split_lines(vls, specs, m) == sum_split_lines(ss, ts, m),
    decreases m,
{
    if m > 0 {
        lemma_split_match(vls, ss, specs, ts, m - 1);
        lemma_uses_match(specs, ts, m - 1, specs.len() as int);
        assert(ss[m - 1] == layer_summary(vls[m - 1]));
    }
}

/// Draws the layers' transitions: splits each layer a transition uses into
/// its copies, adds the line of each transition whose filter was handed in,
/// and a stream for its output.
fn draw_transitions(
    lines: &mut Vec<String>,
    layers: &mut Vec<VisualLayerFilter>,
    output: &crate::engine::model::TargetTimerange,
    transition_filters: &Vec<Option<String>>,
)
    requires
        old(layers)@.len() <= 0x3fff_ffff_ffff_ffff,
    ensures
        ({
            let ss = old(layers)@.map_values(|v: VisualLayerFilter| layer_summary(v));
            let ts = sum_transitions(ss, *output);
            let fs = transition_filter_seq(transition_filters@, ts.len());
            &&& strings_view(final(lines)@) == strings_view(old(lines)@) + sum_split_lines(ss, ts, ss.len() as int)
                + drawn_transition_lines(fs)
            &&& final(layers)@.map_values(|v: VisualLayerFilter| layout_item(v)) == layout_items(ss, ts, fs)
        }),
{
    let ghost vl0 = layers@;
    let ghost ss = vl0.map_values(|v: VisualLayerFilter| layer_summary(v));
    let ghost n = vl0.len() as int;
    let ghost ts = sum_transitions(ss, *output);
    let ghost start = strings_view(lines@);
    let specs = transition_specs(layers, output);
    proof {
        lemma_sources_match(vl0, ss, n);
        lemma_transition_sources_bound(vl0, n);
        lemma_sum_sources_bound(ss, n);
        let srcs = sum_sources(ss, n);
        assert forall|k: int| 0 <= k < specs@.len() implies #[trigger] spec_matches(specs@[k], ts[k]) by {
            let src = srcs[k];
            assert(src == transition_sources(vl0, n)[k]);
            assert(spec_from_layer(specs@[k], vl0[src], vl0, *output));
            lemma_endpoints_match(vl0, ss, src);
            assert(ss[src] == layer_summary(vl0[src]));
            let t = vl0[src].transition->Some_0;
            lemma_position_of_bound(vl0, t.from_segment_id@, n);
            lemma_position_of_bound(vl0, t.to_segment_id@, n);
            let e = transition_endpoints(vl0[src], vl0)->Some_0;
            assert(0 <= e.0 < n);
            assert(ss[e.0] == layer_summary(vl0[e.0]));
            assert(ts[k] == sum_transition(ss, srcs[k], *output));
        }
        assert forall|k: int| 0 <= k < specs@.len() implies #[trigger] specs@[k].from_index < vl0.len()
            && specs@[k].to_index < vl0.len() && specs@[k].from_index != specs@[k].to_index by {
            let src = transition_sources(vl0, n)[k];
            let layer = vl0[src];
            let t = layer.transition->Some_0;
            lemma_position_of_bound(vl0, t.from_segment_id@, n);
            lemma_position_of_bound(vl0, t.to_segment_id@, n);
        }
        assert(specs_fit_layers(specs@, n));
        assert forall|q: int| 0 <= q < specs@.len() implies #[trigger] specs@[q].from_index == ts[q].0 && specs@[q].to_index == ts[q].1 by {
            assert(spec_matches(specs@[q], ts[q]));
        }
        lemma_split_match(vl0, ss, specs@, ts, n);
    }
    let labeled = split_transition_layers(lines, layers, &specs);
    let ghost vl1 = layers@;
    let ghost l1 = strings_view(lines@);
    let mut filters: Vec<Option<String>> = Vec::new();
    let mut k: usize = 0;
    while k < labeled.len()
        invariant
            k <= labeled@.len(),
            filters@.len() == k,
            forall|q: int| 0 <= q < k ==> #[trigger] filters@[q] == if q < transition_filters@.len() { transition_filters@[q] } else { None },
        decreases labeled@.len() - k,
    {
        filters.push(transition_filter_at(transition_filters, k));
        k = k + 1;
    }
    let ghost fs = transition_filter_seq(transition_filters@, ts.len());
    proof {
        assert(filters@ =~= fs);
        assert forall|q: int| 0 <= q < labeled@.len() implies #[trigger] spec_matches(labeled@[q], ts[q]) by {
            assert(crate::compiler::transitions::spec_core(labeled@[q]) == crate::compiler::transitions::spec_core(specs@[q]));
            assert(spec_matches(specs@[q], ts[q]));
        }
        assert forall|q: int| 0 <= q < specs@.len() implies #[trigger] specs@[q].from_index == ts[q].0 && specs@[q].to_index == ts[q].1 by {
            assert(spec_matches(specs@[q], ts[q]));
        }
    }
    append_transition_outputs(lines, layers, &labeled, &filters);
    proof {
        let c = compiled_transitions(fs, fs.len() as int);
        assert(strings_view(lines@) =~= start + sum_split_lines(ss, ts, n) + drawn_transition_lines(fs));
        let items = layout_items(ss, ts, fs);
        assert forall|j: int| 0 <= j < layers@.len() implies #[trigger] layout_item(layers@[j]) == items[j] by {
            if j < n {
                assert(layers@[j] == layers@.subrange(0, n)[j]);
                assert(crate::compiler::transitions::layer_core(vl1[j]) == crate::compiler::transitions::layer_core(vl0[j]));
                assert(ss[j] == layer_summary(vl0[j]));
                lemma_uses_match(specs@, ts, j, specs@.len() as int);
            } else {
                let q = j - n;
                assert(vl1.len() == n);
                assert(filters@ == fs);
                assert(transition_layer(layers@[vl1.len() + q], specs@[compiled_transitions(filters@, filters@.len() as int)[q]]));
                assert(0 <= c[q] < specs@.len());
                assert(spec_matches(labeled@[c[q]], ts[c[q]]));
            }
        }
        assert(layers@.map_values(|v: VisualLayerFilter| layout_item(v)) =~= items);
    }
}

/// The transition filter handed in for the `k`-th transition, if any.
fn transition_filter_at(transition_filters: &Vec<Option<String>>, k: usize) -> (r: Option<String>)
    ensures
        r == if k < transition_filters@.len() { transition_filters@[k as int] } else { None },
{
    if k < transition_filters.len() {
        clone_opt_string(&transition_filters[k])
    } else {
        None
    }
}



proof fn lemma_position_of_bound(layers: Seq<VisualLayerFilter>, id: Seq<char>, n: int)
    requires
        n <= layers.len(),
    ensures
        position_of(layers, id, n) matches Some(p) ==> 0 <= p < n,
    decreases n,
{
    if n > 0 {
        lemma_position_of_bound(layers, id, n - 1);
    }
}

proof fn lemma_transition_sources_bound(layers: Seq<VisualLayerFilter>, n: int)
    requires
        0 <= n <= layers.len(),
    ensures
        transition_sources(layers, n).len() <= n,
    decreases n,
{
    if n > 0 {
        lemma_transition_sources_bound(layers, n - 1);
    }
}

/// Compiles the audio streams of a plan and appends them and their mix to
/// the lines; returns the audio diagnostics and whether there is an audio
/// output.
fn append_audio_part(
    lines: &mut Vec<String>,
    plan: &RenderGraphPlan,
    inputs: &Vec<FfmpegInput>,
    output: &crate::engine::model::TargetTimerange,
    tempo_filters: &Vec<Vec<String>>,
) -> (r: Result<(Vec<RenderAudioMixDiagnostic>, bool), FfmpegCompileError>)
    requires
        tempo_filters@.len() == plan.audio_mixes@.len(),
        *output == profile_parts(plan.output_profile).3,
        profile_has_audio(plan.output_profile),
    ensures
        match r {
            Ok((d, has)) => {
                let tempos = tempo_filters@.map_values(|t: Vec<String>| strings_view(t@));
                let all = strings_view(final(lines)@);
                let n = old(lines)@.len() as int;
                &&& audio_stream_error(plan.audio_mixes@, inputs@, *output, plan.audio_mixes@.len() as int) is None
                &&& has == any_audio_plays(plan.audio_mixes@, *output, plan.audio_mixes@.len() as int)
                &&& d@.map_values(|x: RenderAudioMixDiagnostic| mix_diagnostic_view(x)) == script_diagnostics(*plan, inputs@, tempos)
                &&& n <= all.len()
                &&& all.subrange(0, n) == strings_view(old(lines)@)
                &&& audio_part_matches(*plan, inputs@, tempos, all.subrange(n, all.len() as int))
            },
            Err(e) => audio_stream_error(plan.audio_mixes@, inputs@, *output, plan.audio_mixes@.len() as int) matches Some(k)
                && e.kind == if plan.audio_mixes@[k].volume_keyframes@.len() > 0 {
                    FfmpegCompileErrorKind::UnsupportedAudioAutomation
                } else {
                    FfmpegCompileErrorKind::MissingInputMaterial
                }
                && e.material_id == Some(plan.audio_mixes@[k].material_id),
        },
{
    let ghost tempos = tempo_filters@.map_values(|t: Vec<String>| strings_view(t@));
    let ghost ms = plan.audio_mixes@;
    let ghost start = strings_view(lines@);
    let streams = match compile_audio_streams(&plan.audio_mixes, inputs, output, tempo_filters) {
        Ok(s) => s,
        Err(e) => return Err(e),
    };
    let ghost al = stream_alignment(streams.concat_tracks);
    proof {
        let output_v = *output;
        let items = entry_track_ids(audio_entries(ms, output_v, ms.len() as int));
        let ids = choose|ids: Seq<Seq<char>>| #[trigger] sorted_distinct_of(ids, items)
            && streams.concat_tracks == audio_concat_possible(ms, output_v, ids);
        let chosen = audio_track_order(ms, output_v);
        assert(sorted_distinct_of(chosen, items));
        lemma_sorted_distinct_unique(ids, chosen);
        assert(streams.concat_tracks == audio_concat_decision(ms, output_v));
    }
    let ghost expected = audio_streams(ms, inputs@, *output, al, tempos, ms.len() as int);
    let mut more = clone_strings(&streams.lines);
    let ghost more_seq = more@;
    let ghost old_lines = lines@;
    lines.append(&mut more);
    let ghost with_streams = strings_view(lines@);
    proof {
        assert(lines@ == old_lines + more_seq);
        assert(with_streams =~= start + expected.0);
        lemma_audio_labels_present(ms, inputs@, *output, al, tempos, ms.len() as int);
        lemma_audio_diagnostics_alignment(ms, inputs@, *output, al, AudioTimelineAlignment::OutputTimeline, tempos, ms.len() as int);
        assert(labels_view(streams.labels@) =~= streams.labels@.map_values(|l: AudioLabel| audio_label_view(l)));
    }
    let has = streams.labels.len() > 0;
    if has {
        let mix = append_audio_output_filters(lines, &streams.labels, output, streams.concat_tracks);
        proof {
            let ls = streams.labels@;
            let all = strings_view(lines@);
            let added = all.subrange(with_streams.len() as int, all.len() as int);
            let ids = choose|ids: Seq<Seq<char>>| #[trigger] sorted_distinct_of(ids, label_track_ids(ls)) && {
                if streams.concat_tracks && all_tracks_tile(ls, ids, output.duration) {
                    &&& strings_view(mix@) == Seq::new(ids.len(), |k: int| group_mix_label(track_labels(ls, ids[k]), k))
                    &&& all == with_streams + concat_lines(ls, ids, ids.len() as int) + audio_output_lines(strings_view(mix@))
                } else {
                    &&& strings_view(mix@) == label_names(ls)
                    &&& all == with_streams + audio_output_lines(strings_view(mix@))
                }
            };
            let chosen = choose|ids: Seq<Seq<char>>| sorted_distinct_of(ids, label_track_ids(ls));
            assert(sorted_distinct_of(chosen, label_track_ids(ls)));
            lemma_sorted_distinct_unique(ids, chosen);
            if streams.concat_tracks && all_tracks_tile(ls, ids, output.duration) {
                assert(added =~= concat_lines(ls, ids, ids.len() as int)
                    + audio_output_lines(Seq::new(ids.len(), |k: int| group_mix_label(track_labels(ls, ids[k]), k))));
            } else {
                assert(added =~= audio_output_lines(label_names(ls)));
            }
            assert(audio_output_part(ls, *output, streams.concat_tracks, added));
            let audio = all.subrange(start.len() as int, all.len() as int);
            assert(audio.subrange(0, expected.0.len() as int) =~= expected.0);
            assert(audio.subrange(expected.0.len() as int, audio.len() as int) =~= added);
            assert(audio_part_for(*plan, inputs@, tempos, streams.concat_tracks, audio));
            assert(all.subrange(0, start.len() as int) =~= start);
        }
    } else {
        proof {
            let all = strings_view(lines@);
            assert(all.subrange(start.len() as int, all.len() as int).len() == 0);
            assert(all.subrange(0, start.len() as int) =~= start);
        }
    }
    Ok((streams.diagnostics, has))
}

/// Compiles the layers of a plan that show inside the output window, in
/// order; a layer whose material no input reads is an error.
#[verifier::spinoff_prover]
#[verifier::rlimit(60)]
fn compile_layers(
    plan: &RenderGraphPlan,
    inputs: &Vec<FfmpegInput>,
    layer_extras: &Vec<LayerExtras>,
    out_dims: LayerDimensions,
    rate: &RationalFrameRate,
    output: &crate::engine::model::TargetTimerange,
    alignment: LayerTimelineAlignment,
) -> (r: Result<(Vec<String>, Vec<VisualLayerFilter>), FfmpegCompileError>)
    requires
        layer_extras@.len() == plan.video_layers@.len(),
        out_dims == plan_output_dimensions(*plan),
        alignment == plan_alignment(*plan),
        *rate == profile_parts(plan.output_profile).2,
        *output == profile_parts(plan.output_profile).3,
        forall|k: int| 0 <= k < plan.video_layers@.len() ==> {
            &&& (#[trigger] plan.video_layers@[k]).transform.position_x <= i32::MAX - 1000
            &&& plan.video_layers@[k].transform.position_y >= -(i32::MAX - 1000)
        },
    ensures
        match r {
            Ok((lines, vls)) => {
                &&& first_unread_layer(plan.video_layers@, inputs@, plan.video_layers@.len() as int) is None
                &&& strings_view(lines@) == layer_block(*plan, inputs@, layer_extras@, plan.video_layers@.len() as int)
                &&& vls@.len() <= plan.video_layers@.len()
                &&& (vls@.len() > 0) == any_layer_shows(*plan, plan.video_layers@.len() as int)
                &&& vls@.map_values(|v: VisualLayerFilter| layer_summary(v))
                    == shown_layers(*plan, layer_extras@, plan.video_layers@.len() as int)
            },
            Err(e) => first_unread_layer(plan.video_layers@, inputs@, plan.video_layers@.len() as int) matches Some(k)
                && e.kind == FfmpegCompileErrorKind::MissingInputMaterial
                && e.material_id == Some(plan.video_layers@[k].material_id),
        },
{
    let ghost layers = plan.video_layers@;
    let ghost extras = layer_extras@;
    let mut lines: Vec<String> = Vec::new();
    let mut visual_layers: Vec<VisualLayerFilter> = Vec::new();
    let mut i: usize = 0;
    while i < plan.video_layers.len()
        invariant
            layers == plan.video_layers@,
            extras == layer_extras@,
            extras.len() == layers.len(),
            i <= layers.len(),
            out_dims == plan_output_dimensions(*plan),
            alignment == plan_alignment(*plan),
            *rate == profile_parts(plan.output_profile).2,
            *output == profile_parts(plan.output_profile).3,
            forall|k: int| 0 <= k < layers.len() ==> {
                &&& (#[trigger] layers[k]).transform.position_x <= i32::MAX - 1000
                &&& layers[k].transform.position_y >= -(i32::MAX - 1000)
            },
            first_unread_layer(layers, inputs@, i as int) is None,
            strings_view(lines@) == layer_block(*plan, inputs@, extras, i as int),
            visual_layers@.len() <= i,
            (visual_layers@.len() > 0) == any_layer_shows(*plan, i as int),
            visual_layers@.map_values(|v: VisualLayerFilter| layer_summary(v)) == shown_layers(*plan, extras, i as int),
        decreases layers.len() - i,
    {
        let layer = &plan.video_layers[i];
        let input_index = match input_index_by_material(inputs, layer.material_id.as_str()) {
            Some(x) => x,
            None => {
                proof {
                    assert(first_unread_layer(layers, inputs@, i + 1) == Some(i as int));
                    lemma_first_unread_stays(layers, inputs@, i + 1, layers.len() as int);
                }
                return Err(missing_input(&layer.material_id));
            },
        };
        let ghost before = strings_view(lines@);
        match clipped_layer_source_timerange(layer, output) {
            None => {},
            Some(clip) => {
                let source = match material_dimensions_by_id(&plan.materials, layer.material_id.as_str()) {
                    Some(d) => d,
                    None => out_dims,
                };
                let extra = &layer_extras[i];
                let v = compile_visual_layer(i, input_index, layer, &clip, source, out_dims, rate, output, alignment,
                    &extra.effect_filters, &extra.mask_filters, extra.rotated_dimensions, extra.rotation_angle.as_str());
                let mut more = clone_strings(&v.lines);
                let ghost more_view = strings_view(more@);
                let ghost old_lines = lines@;
                let ghost more_seq = more@;
                lines.append(&mut more);
                proof {
                    assert(lines@ == old_lines + more_seq);
                    assert(strings_view(lines@) =~= before + more_view);
                    assert(source == layer_source_size(*layer, plan.materials@, out_dims));
                    assert(layer_summary(v) == expected_summary(*plan, extras, i as int, clip));
                }
                let ghost prev_layers = visual_layers@;
                let ghost vv = v;
                visual_layers.push(v);
                proof {
                    assert(visual_layers@ == prev_layers.push(vv));
                    assert(visual_layers@.map_values(|v: VisualLayerFilter| layer_summary(v))
                        =~= prev_layers.map_values(|v: VisualLayerFilter| layer_summary(v)).push(layer_summary(vv)));
                }
            },
        }
        i = i + 1;
    }
    Ok((lines, visual_layers))
}

/// Lays out the compiled layers: concatenated in time with the filters
/// that fit them to the output, else with their transitions drawn and laid
/// over the canvas; with no layer, the canvas alone. Returns the label of
/// the video.
fn lay_out_layers(
    lines: &mut Vec<String>,
    visual_layers: Vec<VisualLayerFilter>,
    post: &Option<Vec<String>>,
    background: &str,
    out_dims: LayerDimensions,
    rate: &RationalFrameRate,
    output: &crate::engine::model::TargetTimerange,
    transition_filters: &Vec<Option<String>>,
) -> (v: String)
    requires
        visual_layers@.len() <= 0x3fff_ffff_ffff_ffff,
    ensures
        strings_view(old(lines)@).len() <= strings_view(final(lines)@).len(),
        strings_view(final(lines)@).subrange(0, old(lines)@.len() as int) == strings_view(old(lines)@),
        visual_layers@.len() == 0 ==> {
            &&& strings_view(final(lines)@) == strings_view(old(lines)@)
                + placed_layer_lines(background@, out_dims.width, out_dims.height, *rate, output.duration, Seq::empty())
            &&& v@ == "vbase"@ + crate::text::decimal(0)
        },
        visual_layers@.len() > 0 && post is None ==> {
            let ss = visual_layers@.map_values(|v: VisualLayerFilter| layer_summary(v));
            let ts = sum_transitions(ss, *output);
            let fs = transition_filter_seq(transition_filters@, ts.len());
            let items = layout_items(ss, ts, fs);
            &&& strings_view(final(lines)@) == strings_view(old(lines)@) + sum_split_lines(ss, ts, ss.len() as int)
                + drawn_transition_lines(fs)
                + placed_item_lines(background@, out_dims.width, out_dims.height, *rate, output.duration, items)
            &&& v@ == "vbase"@ + decimal(items.len())
        },
        visual_layers@.len() > 0 && post is Some ==> {
            &&& strings_view(final(lines)@) == strings_view(old(lines)@)
                + concatenated_layer_lines(visual_layers@, strings_view(post->Some_0@))
            &&& v@ == if visual_layers@.len() == 1 && post->Some_0@.len() == 0 { visual_layers@[0].label@ } else { "vconcat0"@ }
        },
{
    let ghost start = strings_view(lines@);
    let ghost vl0 = visual_layers@;
    let ghost ss = vl0.map_values(|v: VisualLayerFilter| layer_summary(v));
    let ghost ts = sum_transitions(ss, *output);
    let ghost fs = transition_filter_seq(transition_filters@, ts.len());
    let ghost items = layout_items(ss, ts, fs);
    let mut transitioned = visual_layers;
    if post.is_none() {
        draw_transitions(lines, &mut transitioned, output, transition_filters);
        proof {
            assert(transitioned@.map_values(|v: VisualLayerFilter| layout_item(v)).len() == transitioned@.len());
            assert(strings_view(lines@).subrange(0, start.len() as int) =~= start);
            if vl0.len() == 0 {
                assert(sum_sources(ss, 0) =~= Seq::<int>::empty());
                assert(ts.len() == 0);
                assert(compiled_transitions(fs, 0) =~= Seq::<int>::empty());
                assert(drawn_transition_lines(fs) =~= Seq::<Seq<char>>::empty());
                assert(items.len() == 0);
                assert(transitioned@.len() == 0);
                assert(strings_view(lines@) =~= start);
            }
        }
    }
    let ghost pre = strings_view(lines@);
    let v = if transitioned.len() == 0 {
        let none: Vec<VisualLayerFilter> = Vec::new();
        proof {
            assert(none@ =~= Seq::<VisualLayerFilter>::empty());
        }
        compose_placed_visual_layers(lines, background, out_dims, rate, output.duration, &none)
    } else {
        match post {
            Some(p) => compose_concatenated_visual_layers(lines, &transitioned, p),
            None => compose_placed_visual_layers(lines, background, out_dims, rate, output.duration, &transitioned),
        }
    };
    proof {
        assert(strings_view(lines@).subrange(0, pre.len() as int) =~= pre);
        assert(strings_view(lines@).subrange(0, start.len() as int) =~= start);
        if vl0.len() > 0 && post is None {
            assert(items.len() >= vl0.len());
            assert forall|k: int| 0 <= k < transitioned@.len() implies
                overlay_line(#[trigger] transitioned@[k], k) == item_overlay_line(items[k], k) by {
                assert(items[k] == layout_item(transitioned@[k]));
            }
            assert(placed_layer_lines(background@, out_dims.width, out_dims.height, *rate, output.duration, transitioned@)
                =~= placed_item_lines(background@, out_dims.width, out_dims.height, *rate, output.duration, items));
        }
    }
    v
}

/// Generates the filter script of a plan. The video layers that show are
/// compiled in order; unless they are concatenated in time, the layers'
/// transitions are drawn with the filters handed in for them (in the order
/// the transitions start; a missing one is not drawn), and the layers are
/// laid over the canvas. The text side files are burnt in, the video is
/// converted to `yuv420p`, and, for every profile but a single frame, the
/// audio segments that play are compiled (each with the tempo filters
/// handed in for it) and mixed.
#[verifier::spinoff_prover]
#[verifier::rlimit(60)]
pub fn generate_filter_script(
    plan: &RenderGraphPlan,
    context: &CompileContext,
    inputs: &Vec<FfmpegInput>,
    ass_sidecars: &Vec<FfmpegSidecar>,
    job_id: &str,
    layer_extras: &Vec<LayerExtras>,
    transition_filters: &Vec<Option<String>>,
    tempo_filters: &Vec<Vec<String>>,
) -> (r: Result<GeneratedFilterScript, FfmpegCompileError>)
    requires
        layer_extras@.len() == plan.video_layers@.len(),
        tempo_filters@.len() == plan.audio_mixes@.len(),
        plan.video_layers@.len() <= 0x3fff_ffff_ffff_ffff,
        forall|k: int| 0 <= k < plan.video_layers@.len() ==> {
            &&& (#[trigger] plan.video_layers@[k]).transform.position_x <= i32::MAX - 1000
            &&& plan.video_layers@[k].transform.position_y >= -(i32::MAX - 1000)
        },
    ensures
        match r {
            Ok(g) => filter_script_ok(g.path@, g.contents@, g.has_audio_output,
                g.diagnostics@.map_values(|d: RenderAudioMixDiagnostic| mix_diagnostic_view(d)), *plan,
                context.artifact_dir@, inputs@, ass_sidecars@, job_id@, layer_extras@, transition_filters@,
                tempo_filters@.map_values(|t: Vec<String>| strings_view(t@))),
            Err(e) => filter_script_error(*plan, inputs@, ass_sidecars@) == Some(e.kind)
                && e.material_id == filter_script_error_material(*plan, inputs@, ass_sidecars@),
        },
{
    let profile = &plan.output_profile;
    let output = output_timerange(profile);
    let (dims, rate) = match profile {
        RenderOutputProfile::PreviewFrame { dimensions, frame_rate, .. } => (*dimensions, *frame_rate),
        RenderOutputProfile::PreviewSegment { dimensions, frame_rate, .. } => (*dimensions, *frame_rate),
        RenderOutputProfile::ExportMp4 { dimensions, frame_rate, .. } => (*dimensions, *frame_rate),
    };
    let out_dims = output_layer_dimensions(dims.width, dims.height);
    let post = concat_visual_post_filters(&plan.video_layers, &output, out_dims, &plan.materials);
    let alignment = if post.is_some() { LayerTimelineAlignment::SegmentLocal } else { LayerTimelineAlignment::OutputTimeline };
    proof {
        assert(out_dims == plan_output_dimensions(*plan));
        assert(alignment == plan_alignment(*plan));
        assert(rate == profile_parts(plan.output_profile).2);
    }
    let (mut lines, visual_layers) = match compile_layers(plan, inputs, layer_extras, out_dims, &rate, &output, alignment) {
        Ok(x) => x,
        Err(e) => return Err(e),
    };
    let ghost block = strings_view(lines@);
    let ghost extras = layer_extras@;
    let ghost shown = any_layer_shows(*plan, plan.video_layers@.len() as int);
    proof {
        if !shown {
            lemma_hidden_layers_add_no_lines(*plan, inputs@, extras, plan.video_layers@.len() as int);
        }
    }
    let background = canvas_background_color_arg(&plan.canvas_background);
    let ghost vls = visual_layers@;
    let current_video = lay_out_layers(&mut lines, visual_layers, &post, background.as_str(), out_dims, &rate, &output,
        transition_filters);
    proof {
        if !shown {
            let none = Seq::<VisualLayerFilter>::empty();
            assert(Seq::new(none.len(), |q: int| crate::compiler::filters::overlay_line(none[q], q)) =~= Seq::<Seq<char>>::empty());
            assert(placed_layer_lines(background@, out_dims.width, out_dims.height, rate, output.duration, none)
                =~= seq![canvas_line(*plan)]);
            reveal_strlit("vbase0");
            reveal_strlit("vbase");
            assert(crate::text::decimal(0) == seq!['0']);
            assert(current_video@ =~= "vbase0"@);
            assert(strings_view(lines@) =~= seq![canvas_line(*plan)]);
        }
    }
    let ghost pre_text = strings_view(lines@);
    let ghost cv = current_video@;
    proof {
        let n = plan.video_layers@.len() as int;
        let ss = shown_layers(*plan, extras, n);
        lemma_summary_lines(vls, ss);
        assert(vls.len() == ss.len());
        if ss.len() > 0 && post is None {
            let ts = sum_transitions(ss, output);
            let fs = transition_filter_seq(transition_filters@, ts.len());
            let items = layout_items(ss, ts, fs);
            let none = Seq::<VisualLayerFilter>::empty();
            assert(Seq::new(none.len(), |q: int| overlay_line(none[q], q)) =~= Seq::<Seq<char>>::empty());
            assert(placed_layer_lines(background@, out_dims.width, out_dims.height, rate, output.duration, none)
                =~= seq![canvas_line(*plan)]);
            assert(placed_item_lines(background@, out_dims.width, out_dims.height, rate, output.duration, items)
                =~= placed_items(*plan, items));
            assert(pre_text =~= block + sum_split_lines(ss, ts, ss.len() as int) + drawn_transition_lines(fs)
                + placed_items(*plan, items));
        }
        if ss.len() > 0 && post is Some {
            assert(ss[0] == layer_summary(vls[0]));
            assert(concatenated_layer_lines(vls, strings_view(post->Some_0@)) == concat_lines_of(ss, strings_view(post->Some_0@)));
            assert(pre_text =~= block + concat_lines_of(ss, strings_view(post->Some_0@)));
        }
    }
    match append_video_output_filters(&mut lines, current_video, plan.text.text_overlays.len() > 0, ass_sidecars) {
        Ok(()) => {},
        Err(e) => return Err(e),
    }
    let ghost video = strings_view(lines@);
    proof {
        assert(video =~= pre_text + video_tail(cv, ass_sidecars@));
        assert(video.subrange(0, block.len() as int) =~= block);
        assert(video.subrange(video.len() - video_tail(cv, ass_sidecars@).len(), video.len() as int) =~= video_tail(cv, ass_sidecars@));
        if !shown {
            assert(video =~= seq![canvas_line(*plan)] + video_tail("vbase0"@, ass_sidecars@));
        }
        assert(video_part_matches(*plan, inputs@, extras, transition_filters@, ass_sidecars@, video));
    }
    let supports_audio = match profile {
        RenderOutputProfile::PreviewFrame { .. } => false,
        _ => true,
    };
    let ghost tempos = tempo_filters@.map_values(|t: Vec<String>| strings_view(t@));
    let mut diagnostics: Vec<RenderAudioMixDiagnostic> = Vec::new();
    let mut has_audio_output = false;
    if supports_audio {
        match append_audio_part(&mut lines, plan, inputs, &output, tempo_filters) {
            Ok((d, has)) => {
                diagnostics = d;
                has_audio_output = has;
            },
            Err(e) => return Err(e),
        }
    } else {
        proof {
            let all = strings_view(lines@);
            assert(all.subrange(video.len() as int, all.len() as int).len() == 0);
            assert(script_diagnostics(*plan, inputs@, tempos) =~= Seq::empty());
            assert(diagnostics@.map_values(|d: RenderAudioMixDiagnostic| mix_diagnostic_view(d)) =~= Seq::empty());
        }
    }
    proof {
        let all = strings_view(lines@);
        let k = video.len() as int;
        assert(all.subrange(0, k) =~= video);
        assert(audio_part_matches(*plan, inputs@, tempos, all.subrange(k, all.len() as int)));
        assert(script_lines_match(*plan, inputs@, extras, transition_filters@, ass_sidecars@, tempos, all));
    }
    let contents = join_strings(&lines, ";\n");
    let mut file_name = lit(job_id);
    append_str(&mut file_name, "-filter.ffscript");
    let path = context.artifact_path(file_name.as_str());
    Ok(GeneratedFilterScript { path, contents, has_audio_output, diagnostics })
}

proof fn lemma_first_unread_stays(layers: Seq<RenderVideoLayer>, inputs: Seq<FfmpegInput>, i: int, n: int)
    requires
        0 < i <= n,
        first_unread_layer(layers, inputs, i) is Some,
    ensures
        first_unread_layer(layers, inputs, n) == first_unread_layer(layers, inputs, i),
    decreases n - i,
{
    if n > i {
        lemma_first_unread_stays(layers, inputs, i, n - 1);
    }
}

proof fn lemma_hidden_layers_add_no_lines(plan: RenderGraphPlan, inputs: Seq<FfmpegInput>, extras: Seq<LayerExtras>, n: int)
    requires
        !any_layer_shows(plan, n),
    ensures
        layer_block(plan, inputs, extras, n).len() == 0,
    decreases n,
{
    if n > 0 {
        lemma_hidden_layers_add_no_lines(plan, inputs, extras, n - 1);
    }
}

proof fn lemma_audio_diagnostics_alignment(
    mixes: Seq<RenderAudioMix>,
    inputs: Seq<FfmpegInput>,
    output: crate::engine::model::TargetTimerange,
    a: AudioTimelineAlignment,
    b: AudioTimelineAlignment,
    tempos: Seq<Seq<Seq<char>>>,
    n: int,
)
    ensures
        audio_streams(mixes, inputs, output, a, tempos, n).2 == audio_streams(mixes, inputs, output, b, tempos, n).2,
    decreases n,
{
    if n > 0 {
        lemma_audio_diagnostics_alignment(mixes, inputs, output, a, b, tempos, n - 1);
    }
}

proof fn lemma_audio_labels_present(
    mixes: Seq<RenderAudioMix>,
    inputs: Seq<FfmpegInput>,
    output: crate::engine::model::TargetTimerange,
    alignment: AudioTimelineAlignment,
    tempos: Seq<Seq<Seq<char>>>,
    n: int,
)
    requires
        0 <= n <= mixes.len(),
    ensures
        (audio_streams(mixes, inputs, output, alignment, tempos, n).1.len() > 0) == any_audio_plays(mixes, output, n),
        audio_streams(mixes, inputs, output, alignment, tempos, n).0.len() == audio_streams(mixes, inputs, output, alignment, tempos, n).1.len(),
    decreases n,
{
    if n > 0 {
        lemma_audio_labels_present(mixes, inputs, output, alignment, tempos, n - 1);
    }
}

} // verus!
