//! The audio streams of the filter script: one labelled stream per audio
//! segment that plays in the output window, read from its input and passed
//! through its filters, with the diagnostics of what export cannot do.
use vstd::prelude::*;

use crate::compiler::ass::{join_strings, joined};
use crate::compiler::effects::{audio_retime_outcome, AudioRetimeOutcome, RenderAudioMixDiagnostic};
use crate::compiler::filters::{
    audio_concat_possible, audio_effect_slot_diagnostics, audio_entries, audio_mix_text, can_concat_audio_mixes,
    clipped_audio_source, clipped_audio_source_timerange, compile_audio_mix_filters, enabled_slots, entry_track_ids,
    reject_unsupported_audio_automation, spec_target_delay, target_delay_from_output, AudioLabel,
    AudioTimelineAlignment, RenderAudioMix,
};
use crate::compiler::ass::sorted_distinct_of;
use crate::compiler::job::{
    input_index_by_material, input_index_of, missing_input, FfmpegCompileError, FfmpegCompileErrorKind, FfmpegInput,
    RenderIntentSupport,
};
use crate::engine::model::TargetTimerange;
use crate::text::{append_str, append_string, decimal, lit, strings_view, u64_to_decimal};

verus! {

/// A diagnostic by its plain values.
pub open spec fn mix_diagnostic_view(d: RenderAudioMixDiagnostic) -> (Seq<char>, Seq<char>, Seq<char>, Seq<char>, RenderIntentSupport, Seq<char>) {
    (d.track_id@, d.segment_id@, d.material_id@, d.property@, d.support, d.reason@)
}

/// The diagnostics of one audio segment: its retime when export cannot
/// follow it, then one per enabled effect slot.
pub open spec fn stream_diagnostics(a: RenderAudioMix) -> Seq<(Seq<char>, Seq<char>, Seq<char>, Seq<char>, RenderIntentSupport, Seq<char>)> {
    let retime: Seq<(Seq<char>, Seq<char>, Seq<char>, Seq<char>, RenderIntentSupport, Seq<char>)> = match audio_retime_outcome(a.retime) {
        AudioRetimeOutcome::Unsupported => seq![(a.track_id@, a.segment_id@, a.material_id@, "retime.audio"@,
            a.retime.audio.support, a.retime.audio.reason@)],
        AudioRetimeOutcome::CurveDeferred => seq![(a.track_id@, a.segment_id@, a.material_id@, "retime.audio"@,
            RenderIntentSupport::Degraded,
            "speed-curve audio retime is typed in the render graph but dynamic atempo export is deferred"@)],
        _ => Seq::empty(),
    };
    let slots = enabled_slots(a.effect_slots@, a.effect_slots@.len() as int);
    retime + Seq::new(slots.len(), |q: int| (a.track_id@, a.segment_id@, a.material_id@,
        "audioEffectSlot."@ + slots[q].slot_id@, RenderIntentSupport::Unsupported,
        "unsupported audio effect slot "@ + slots[q].name@ + " is preserved for diagnostics"@))
}

/// The line of the audio stream `a{k}` read from input `input_index`.
pub open spec fn audio_stream_line_text(
    a: RenderAudioMix,
    input_index: u32,
    clip: crate::engine::model::SourceTimerange,
    output: TargetTimerange,
    alignment: AudioTimelineAlignment,
    tempo: Seq<Seq<char>>,
    k: int,
) -> Seq<char> {
    let filters = audio_mix_text(a, clip, output, alignment)
        + (if audio_retime_outcome(a.retime) == AudioRetimeOutcome::Tempo { tempo } else { Seq::empty() });
    "["@ + decimal(input_index as nat) + ":a]"@ + joined(filters, ","@) + "["@ + "a"@ + decimal(k as nat) + "]"@
}

/// The first of the first `n` segments that plays but cannot be compiled:
/// it has volume keyframes, or no input reads its material.
pub open spec fn audio_stream_error(ms: Seq<RenderAudioMix>, inputs: Seq<FfmpegInput>, output: TargetTimerange, n: int) -> Option<int>
    decreases n,
{
    if n <= 0 {
        None
    } else {
        let prev = audio_stream_error(ms, inputs, output, n - 1);
        let a = ms[n - 1];
        if prev is Some {
            prev
        } else if clipped_audio_source(a, output) is Some
            && (a.volume_keyframes@.len() > 0 || input_index_of(inputs, a.material_id@) is None) {
            Some(n - 1)
        } else {
            None
        }
    }
}

/// The lines, labels and diagnostics of the first `n` segments.
pub open spec fn audio_streams(
    ms: Seq<RenderAudioMix>,
    inputs: Seq<FfmpegInput>,
    output: TargetTimerange,
    alignment: AudioTimelineAlignment,
    tempos: Seq<Seq<Seq<char>>>,
    n: int,
) -> (Seq<Seq<char>>, Seq<(Seq<char>, Seq<char>, u64, u64)>, Seq<(Seq<char>, Seq<char>, Seq<char>, Seq<char>, RenderIntentSupport, Seq<char>)>)
    decreases n,
{
    if n <= 0 {
        (Seq::empty(), Seq::empty(), Seq::empty())
    } else {
        let prev = audio_streams(ms, inputs, output, alignment, tempos, n - 1);
        let a = ms[n - 1];
        match clipped_audio_source(a, output) {
            None => prev,
            Some(clip) => {
                let start = spec_target_delay(a.target_timerange, output);
                let end = (if start + clip.duration > u64::MAX { u64::MAX as int } else { start + clip.duration }) as u64;
                let ii = input_index_of(inputs, a.material_id@)->Some_0;
                (
                    prev.0.push(audio_stream_line_text(a, ii, clip, output, alignment, tempos[n - 1], n - 1)),
                    prev.1.push((a.track_id@, "a"@ + decimal((n - 1) as nat), start, end)),
                    prev.2 + stream_diagnostics(a),
                )
            },
        }
    }
}

/// An audio label by its plain values.
pub open spec fn audio_label_view(l: AudioLabel) -> (Seq<char>, Seq<char>, u64, u64) {
    (l.track_id@, l.label@, l.active_start, l.active_end)
}

/// The compiled audio streams.
#[derive(Debug, Clone)]
pub struct CompiledAudioStreams {
    pub lines: Vec<String>,
    pub labels: Vec<AudioLabel>,
    pub diagnostics: Vec<RenderAudioMixDiagnostic>,
    /// Whether the segments are concatenated by track instead of mixed as
    /// they are placed.
    pub concat_tracks: bool,
}

/// The alignment the streams are compiled with.
pub open spec fn stream_alignment(concat_tracks: bool) -> AudioTimelineAlignment {
    if concat_tracks { AudioTimelineAlignment::TrackLocal } else { AudioTimelineAlignment::OutputTimeline }
}

/// Compiles the diagnostics of one segment.
fn segment_diagnostics(out: &mut Vec<RenderAudioMixDiagnostic>, audio: &RenderAudioMix, retime: Vec<RenderAudioMixDiagnostic>)
    requires
        match audio_retime_outcome(audio.retime) {
            AudioRetimeOutcome::Unsupported => retime@.len() == 1 && retime@[0].reason == audio.retime.audio.reason
                && retime@[0].support == audio.retime.audio.support,
            AudioRetimeOutcome::CurveDeferred => retime@.len() == 1 && retime@[0].support == RenderIntentSupport::Degraded
                && retime@[0].reason@ == "speed-curve audio retime is typed in the render graph but dynamic atempo export is deferred"@,
            _ => retime@.len() == 0,
        },
        forall|k: int| 0 <= k < retime@.len() ==> (#[trigger] retime@[k]).property@ == "retime.audio"@
            && retime@[k].track_id == audio.track_id && retime@[k].segment_id == audio.segment_id
            && retime@[k].material_id == audio.material_id,
    ensures
        final(out)@.map_values(|d: RenderAudioMixDiagnostic| mix_diagnostic_view(d))
            == old(out)@.map_values(|d: RenderAudioMixDiagnostic| mix_diagnostic_view(d)) + stream_diagnostics(*audio),
{
    let ghost start = out@.map_values(|d: RenderAudioMixDiagnostic| mix_diagnostic_view(d));
    let mut retime = retime;
    let ghost rv = retime@.map_values(|d: RenderAudioMixDiagnostic| mix_diagnostic_view(d));
    out.append(&mut retime);
    let ghost mid = out@.map_values(|d: RenderAudioMixDiagnostic| mix_diagnostic_view(d));
    proof {
        assert(mid =~= start + rv);
    }
    let mut slots = audio_effect_slot_diagnostics(audio);
    let ghost sv = slots@.map_values(|d: RenderAudioMixDiagnostic| mix_diagnostic_view(d));
    out.append(&mut slots);
    proof {
        let a = *audio;
        let en = enabled_slots(a.effect_slots@, a.effect_slots@.len() as int);
        assert(out@.map_values(|d: RenderAudioMixDiagnostic| mix_diagnostic_view(d)) =~= mid + sv);
        assert(sv =~= Seq::new(en.len(), |q: int| (a.track_id@, a.segment_id@, a.material_id@,
            "audioEffectSlot."@ + en[q].slot_id@, RenderIntentSupport::Unsupported,
            "unsupported audio effect slot "@ + en[q].name@ + " is preserved for diagnostics"@)));
        let rpart: Seq<(Seq<char>, Seq<char>, Seq<char>, Seq<char>, RenderIntentSupport, Seq<char>)> = match audio_retime_outcome(a.retime) {
            AudioRetimeOutcome::Unsupported => seq![(a.track_id@, a.segment_id@, a.material_id@, "retime.audio"@,
                a.retime.audio.support, a.retime.audio.reason@)],
            AudioRetimeOutcome::CurveDeferred => seq![(a.track_id@, a.segment_id@, a.material_id@, "retime.audio"@,
                RenderIntentSupport::Degraded,
                "speed-curve audio retime is typed in the render graph but dynamic atempo export is deferred"@)],
            _ => Seq::empty(),
        };
        assert(rv =~= rpart);
    }
}

/// Compiles the audio streams of the segments that play in the output
/// window, in order, each labelled `a{index}` after its place among all
/// segments. The tempo chain of each segment is handed in. The first
/// segment that plays with volume keyframes, or with no input reading its
/// material, is an error.
pub fn compile_audio_streams(
    audio_mixes: &Vec<RenderAudioMix>,
    inputs: &Vec<FfmpegInput>,
    output: &TargetTimerange,
    tempo_filters: &Vec<Vec<String>>,
) -> (r: Result<CompiledAudioStreams, FfmpegCompileError>)
    requires
        tempo_filters@.len() == audio_mixes@.len(),
    ensures
        match r {
            Ok(c) => {
                let expected = audio_streams(audio_mixes@, inputs@, *output, stream_alignment(c.concat_tracks),
                    tempo_filters@.map_values(|t: Vec<String>| strings_view(t@)), audio_mixes@.len() as int);
                &&& audio_stream_error(audio_mixes@, inputs@, *output, audio_mixes@.len() as int) is None
                &&& strings_view(c.lines@) == expected.0
                &&& c.labels@.map_values(|l: AudioLabel| audio_label_view(l)) == expected.1
                &&& c.diagnostics@.map_values(|d: RenderAudioMixDiagnostic| mix_diagnostic_view(d)) == expected.2
                &&& exists|ids: Seq<Seq<char>>| #[trigger] sorted_distinct_of(ids,
                    entry_track_ids(audio_entries(audio_mixes@, *output, audio_mixes@.len() as int)))
                    && c.concat_tracks == audio_concat_possible(audio_mixes@, *output, ids)
            },
            Err(e) => audio_stream_error(audio_mixes@, inputs@, *output, audio_mixes@.len() as int) matches Some(k) && {
                let a = audio_mixes@[k];
                if a.volume_keyframes@.len() > 0 {
                    &&& e.kind == FfmpegCompileErrorKind::UnsupportedAudioAutomation
                    &&& e.material_id == Some(a.material_id)
                    &&& e.message@ == "audio segment "@ + a.segment_id@ + " contains keyframed volume automation that cannot be compiled safely"@
                } else {
                    &&& e.kind == FfmpegCompileErrorKind::MissingInputMaterial
                    &&& e.material_id == Some(a.material_id)
                    &&& e.message@ == "render graph references material "@ + a.material_id@ + " without a matching FFmpeg input"@
                }
            },
        },
{
    let ghost ms = audio_mixes@;
    let ghost tv = tempo_filters@.map_values(|t: Vec<String>| strings_view(t@));
    let concat_tracks = can_concat_audio_mixes(audio_mixes, output);
    let alignment = if concat_tracks { AudioTimelineAlignment::TrackLocal } else { AudioTimelineAlignment::OutputTimeline };
    let mut lines: Vec<String> = Vec::new();
    let mut labels: Vec<AudioLabel> = Vec::new();
    let mut diagnostics: Vec<RenderAudioMixDiagnostic> = Vec::new();
    let mut i: usize = 0;
    while i < audio_mixes.len()
        invariant
            ms == audio_mixes@,
            tv == tempo_filters@.map_values(|t: Vec<String>| strings_view(t@)),
            tempo_filters@.len() == ms.len(),
            alignment == stream_alignment(concat_tracks),
            i <= ms.len(),
            audio_stream_error(ms, inputs@, *output, i as int) is None,
            strings_view(lines@) == audio_streams(ms, inputs@, *output, alignment, tv, i as int).0,
            labels@.map_values(|l: AudioLabel| audio_label_view(l)) == audio_streams(ms, inputs@, *output, alignment, tv, i as int).1,
            diagnostics@.map_values(|d: RenderAudioMixDiagnostic| mix_diagnostic_view(d))
                == audio_streams(ms, inputs@, *output, alignment, tv, i as int).2,
        decreases ms.len() - i,
    {
        let audio = &audio_mixes[i];
        let ghost prev = audio_streams(ms, inputs@, *output, alignment, tv, i as int);
        match clipped_audio_source_timerange(audio, output) {
            None => {},
            Some(clip) => {
                match reject_unsupported_audio_automation(audio) {
                    Ok(()) => {},
                    Err(e) => {
                        proof {
                            assert(audio_stream_error(ms, inputs@, *output, i + 1) == Some(i as int));
                            lemma_error_stays(ms, inputs@, *output, i + 1, ms.len() as int);
                        }
                        return Err(e);
                    },
                }
                let input_index = match input_index_by_material(inputs, audio.material_id.as_str()) {
                    Some(ii) => ii,
                    None => {
                        proof {
                            assert(audio_stream_error(ms, inputs@, *output, i + 1) == Some(i as int));
                            lemma_error_stays(ms, inputs@, *output, i + 1, ms.len() as int);
                        }
                        return Err(missing_input(&audio.material_id));
                    },
                };
                let mut label = lit("a");
                let n = u64_to_decimal(i as u64);
                append_string(&mut label, &n);
                let tempo = crate::text::clone_strings(&tempo_filters[i]);
                let compiled = compile_audio_mix_filters(audio, &clip, output, alignment, tempo);
                let mut line = lit("[");
                let ii = u64_to_decimal(input_index as u64);
                append_string(&mut line, &ii);
                append_str(&mut line, ":a]");
                let joined_filters = join_strings(&compiled.filters, ",");
                append_string(&mut line, &joined_filters);
                append_str(&mut line, "[");
                append_string(&mut line, &label);
                append_str(&mut line, "]");
                proof {
                    assert(tv[i as int] == strings_view(tempo_filters@[i as int]@));
                    let tpart: Seq<Seq<char>> = if audio_retime_outcome(audio.retime) == AudioRetimeOutcome::Tempo {
                        tv[i as int]
                    } else {
                        Seq::empty()
                    };
                    assert(strings_view(compiled.filters@) =~= audio_mix_text(*audio, clip, *output, alignment) + tpart);
                    assert(line@ =~= audio_stream_line_text(*audio, input_index, clip, *output, alignment, tv[i as int], i as int));
                }
                let ghost lines_before = strings_view(lines@);
                lines.push(line);
                segment_diagnostics(&mut diagnostics, audio, compiled.diagnostics);
                let active_start = target_delay_from_output(&audio.target_timerange, output);
                let active_end = active_start.saturating_add(clip.duration);
                let ghost labels_before = labels@.map_values(|l: AudioLabel| audio_label_view(l));
                labels.push(AudioLabel { track_id: audio.track_id.clone(), label, active_start, active_end });
                proof {
                    assert(tv[i as int] == strings_view(tempo_filters@[i as int]@));
                    assert(strings_view(lines@) =~= lines_before.push(audio_stream_line_text(*audio, input_index, clip,
                        *output, alignment, tv[i as int], i as int)));
                    assert(labels@.map_values(|l: AudioLabel| audio_label_view(l)) =~= labels_before.push(
                        (audio.track_id@, "a"@ + decimal(i as nat), active_start, active_end)));
                }
            },
        }
        i = i + 1;
    }
    Ok(CompiledAudioStreams { lines, labels, diagnostics, concat_tracks })
}

/// Once a segment fails, the first failure stays that one.
proof fn lemma_error_stays(ms: Seq<RenderAudioMix>, inputs: Seq<FfmpegInput>, output: TargetTimerange, i: int, n: int)
    requires
        0 <= i <= n,
        audio_stream_error(ms, inputs, output, i) is Some,
    ensures
        audio_stream_error(ms, inputs, output, n) == audio_stream_error(ms, inputs, output, i),
    decreases n - i,
{
    if n > i {
        lemma_error_stays(ms, inputs, output, i, n - 1);
    }
}

} // verus!
