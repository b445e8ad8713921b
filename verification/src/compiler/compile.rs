//! Compiles a render plan into an FFmpeg job: the inputs, the text side
//! files, the filter script, the encoder settings, what the output is
//! checked against, and the command-line arguments. Preview and export go
//! through this one path.
use vstd::prelude::*;

use crate::compiler::ass::{ass_sidecars_error, ass_sidecars_ok, generate_ass_sidecars, BundledFontEntry};
use crate::compiler::effects::RenderAudioMixDiagnostic;
use crate::compiler::job::{
    build_args, capability_problem, collect_inputs, diagnostic_view, effect_capability_diagnostics, encode_settings,
    input_matches, input_positions, job_id_text, layer_capability_diagnostics, mix_capability_diagnostics,
    output_kind, output_validation, overlay_capability_diagnostics, profile_id, profile_parts, settings_view,
    spec_args, spec_encode_settings, spec_output_kind, spec_output_validation, stable_job_id,
    validate_profile_capabilities, CompileContext, EncodeSettings, FfmpegCompileError, FfmpegCompileErrorKind,
    FfmpegInput, FfmpegOutputKind, FfmpegSidecar, FfmpegSidecarKind, OutputValidationExpectation, RenderMaterial,
    RenderVisualDiagnostic,
};
use crate::compiler::script::{
    filter_script_error, filter_script_error_material, filter_script_ok, generate_filter_script, plan_has_audio_output, LayerExtras,
    RenderGraphPlan,
};
use crate::compiler::streams::mix_diagnostic_view;
use crate::engine::text_layout::{is_blank, str_is_blank};
use crate::text::{append_str, lit, strings_view};

verus! {

/// A compiled FFmpeg job.
#[derive(Debug, Clone)]
pub struct FfmpegJob {
    pub job_id: String,
    pub output_kind: FfmpegOutputKind,
    pub output_path: String,
    pub inputs: Vec<FfmpegInput>,
    pub sidecars: Vec<FfmpegSidecar>,
    pub filter_script: String,
    pub filter_script_diagnostics: Vec<RenderAudioMixDiagnostic>,
    pub encode_settings: EncodeSettings,
    pub validation: OutputValidationExpectation,
    pub visual_diagnostics: Vec<RenderVisualDiagnostic>,
    pub args: Vec<String>,
}

/// The inputs FFmpeg reads for a plan's materials: every material with
/// video or audio, numbered in order.
pub open spec fn inputs_for(inputs: Seq<FfmpegInput>, ms: Seq<RenderMaterial>) -> bool {
    let ps = input_positions(ms, ms.len() as int);
    &&& ps.len() <= u32::MAX as int + 1
    &&& inputs.len() == ps.len()
    &&& forall|k: int| 0 <= k < ps.len() ==> input_matches(#[trigger] inputs[k], k, ms[ps[k]])
}

/// The id of a plan's job.
pub open spec fn plan_job_id(plan: RenderGraphPlan) -> Seq<char> {
    job_id_text(plan.draft_id@, profile_parts(plan.output_profile).0@)
}

/// The diagnostics a job reports: the plan's own visual diagnostics, then
/// those of every filter and transition that export does not fully support.
pub open spec fn job_visual_diagnostics(plan: RenderGraphPlan) -> Seq<(Seq<char>, Seq<char>, Seq<char>, Seq<char>, crate::compiler::job::RenderIntentSupport, Seq<char>)> {
    plan.visual_diagnostics@.map_values(|d: RenderVisualDiagnostic| diagnostic_view(d))
        + layer_capability_diagnostics(plan.video_layers@, plan.video_layers@.len() as int)
        + overlay_capability_diagnostics(plan.text.text_overlays@, plan.text.text_overlays@.len() as int)
        + mix_capability_diagnostics(plan.audio_mixes@, plan.audio_mixes@.len() as int)
}

/// The first side file of a job: its filter script.
pub open spec fn filter_sidecar_ok(s: FfmpegSidecar, job_id: Seq<char>, path: Seq<char>, contents: Seq<char>) -> bool {
    &&& s.sidecar_id@ == job_id + "-filter"@
    &&& s.kind == FfmpegSidecarKind::FilterScript
    &&& s.segment_id is None
    &&& s.path@ == path
    &&& s.contents@ == contents
}

fn copy_diagnostic(d: &RenderVisualDiagnostic) -> (r: RenderVisualDiagnostic)
    ensures
        diagnostic_view(r) == diagnostic_view(*d),
{
    RenderVisualDiagnostic {
        track_id: d.track_id.clone(),
        segment_id: d.segment_id.clone(),
        material_id: d.material_id.clone(),
        property: d.property.clone(),
        support: d.support,
        reason: d.reason.clone(),
    }
}

/// Compiles a plan into an FFmpeg job. The output path is checked first,
/// then the encoders the profile needs; then the inputs are collected, the
/// text side files and the filter script generated (with the layer extras,
/// transition filters and tempo filters handed in, as for
/// `generate_filter_script`), and the arguments built.
#[verifier::spinoff_prover]
pub fn compile_ffmpeg_job(
    plan: &RenderGraphPlan,
    context: &CompileContext,
    registry: &Vec<BundledFontEntry>,
    layer_extras: &Vec<LayerExtras>,
    transition_filters: &Vec<Option<String>>,
    tempo_filters: &Vec<Vec<String>>,
) -> (r: Result<FfmpegJob, FfmpegCompileError>)
    requires
        layer_extras@.len() == plan.video_layers@.len(),
        tempo_filters@.len() == plan.audio_mixes@.len(),
        plan.video_layers@.len() <= 0x3fff_ffff_ffff_ffff,
        forall|k: int| 0 <= k < plan.video_layers@.len() ==> {
            &&& (#[trigger] plan.video_layers@[k]).transform.position_x <= i32::MAX - 1000
            &&& plan.video_layers@[k].transform.position_y >= -(i32::MAX - 1000)
        },
    ensures
        (r matches Err(e) && e.kind == FfmpegCompileErrorKind::MissingOutputPath) <==> is_blank(context.output_path@),
        is_blank(context.output_path@) ==> (r matches Err(e) && e.message@ == "FFmpeg job output path must not be empty"@
            && e.remediation@ == "Choose a derived preview/export output path before compiling the job."@),
        !is_blank(context.output_path@) && capability_problem(plan.output_profile, context.capabilities) is Some ==> (
            r matches Err(e) && e.kind == FfmpegCompileErrorKind::UnsupportedEncoder
            && capability_problem(plan.output_profile, context.capabilities) == Some((e.message@, e.remediation@))),
        match r {
            Ok(job) => {
                let tempos = tempo_filters@.map_values(|t: Vec<String>| strings_view(t@));
                let has_audio = plan_has_audio_output(*plan);
                let job_id = plan_job_id(*plan);
                let ass = job.sidecars@.subrange(1, job.sidecars@.len() as int);
                &&& !is_blank(context.output_path@)
                &&& capability_problem(plan.output_profile, context.capabilities) is None
                &&& job.job_id@ == job_id
                &&& job.output_kind == spec_output_kind(plan.output_profile)
                &&& job.output_path@ == context.output_path@
                &&& inputs_for(job.inputs@, plan.materials@)
                &&& job.sidecars@.len() >= 1
                &&& ass_sidecars_ok(ass, plan.text, context.capabilities.text, context.artifact_dir@, job_id, registry@)
                &&& filter_sidecar_ok(job.sidecars@[0], job_id, job.sidecars@[0].path@, job.filter_script@)
                &&& filter_script_ok(job.sidecars@[0].path@, job.filter_script@, has_audio,
                    job.filter_script_diagnostics@.map_values(|d: RenderAudioMixDiagnostic| mix_diagnostic_view(d)),
                    *plan, context.artifact_dir@, job.inputs@, ass, job_id, layer_extras@, transition_filters@, tempos)
                &&& settings_view(job.encode_settings) == spec_encode_settings(plan.output_profile)
                &&& job.validation == spec_output_validation(plan.output_profile, has_audio)
                &&& strings_view(job.args@) == spec_args(job.inputs@.map_values(|i: FfmpegInput| i.ffmpeg_path@),
                    job.sidecars@[0].path@, context.output_path@, job.output_kind, settings_view(job.encode_settings),
                    job.validation.expected_duration, has_audio)
                &&& job.visual_diagnostics@.map_values(|d: RenderVisualDiagnostic| diagnostic_view(d))
                    == job_visual_diagnostics(*plan)
            },
            Err(e) => {
                ||| is_blank(context.output_path@)
                ||| capability_problem(plan.output_profile, context.capabilities) is Some
                ||| input_positions(plan.materials@, plan.materials@.len() as int).len() > u32::MAX as int + 1
                    && e.kind == FfmpegCompileErrorKind::MissingInputMaterial
                ||| ass_sidecars_error(e, plan.text, context.capabilities.text, registry@)
                ||| exists|inputs: Seq<FfmpegInput>, ass: Seq<FfmpegSidecar>|
                    #![trigger inputs_for(inputs, plan.materials@), ass_sidecars_ok(ass, plan.text, context.capabilities.text, context.artifact_dir@, plan_job_id(*plan), registry@)]
                    inputs_for(inputs, plan.materials@)
                    && ass_sidecars_ok(ass, plan.text, context.capabilities.text, context.artifact_dir@, plan_job_id(*plan), registry@)
                    && filter_script_error(*plan, inputs, ass) == Some(e.kind)
                    && e.material_id == filter_script_error_material(*plan, inputs, ass)
            },
        },
{
    if str_is_blank(context.output_path.as_str()) {
        return Err(FfmpegCompileError::new(
            FfmpegCompileErrorKind::MissingOutputPath,
            lit("FFmpeg job output path must not be empty"),
            lit("Choose a derived preview/export output path before compiling the job."),
        ));
    }
    match validate_profile_capabilities(&plan.output_profile, &context.capabilities) {
        Ok(()) => {},
        Err(e) => return Err(e),
    }
    let job_id = stable_job_id(plan.draft_id.as_str(), profile_id(&plan.output_profile).as_str());
    let inputs = match collect_inputs(&plan.materials) {
        Ok(i) => i,
        Err(e) => return Err(e),
    };
    let ass_sidecars = match generate_ass_sidecars(&plan.text, context, job_id.as_str(), registry) {
        Ok(v) => v,
        Err(e) => return Err(e),
    };
    let filter = match generate_filter_script(plan, context, &inputs, &ass_sidecars, job_id.as_str(), layer_extras,
        transition_filters, tempo_filters) {
        Ok(f) => f,
        Err(e) => {
            proof {
                assert(inputs_for(inputs@, plan.materials@));
                assert(job_id@ == plan_job_id(*plan));
                assert(ass_sidecars_ok(ass_sidecars@, plan.text, context.capabilities.text, context.artifact_dir@,
                    plan_job_id(*plan), registry@));
                assert(filter_script_error(*plan, inputs@, ass_sidecars@) == Some(e.kind));
                assert(e.material_id == filter_script_error_material(*plan, inputs@, ass_sidecars@));
            }
            return Err(e);
        },
    };
    let mut sidecar_id = job_id.clone();
    append_str(&mut sidecar_id, "-filter");
    let mut sidecars: Vec<FfmpegSidecar> = Vec::new();
    sidecars.push(FfmpegSidecar {
        sidecar_id,
        kind: FfmpegSidecarKind::FilterScript,
        segment_id: None,
        path: filter.path.clone(),
        contents: filter.contents.clone(),
    });
    let ghost ass_view = ass_sidecars@;
    let mut ass_moved = ass_sidecars;
    sidecars.append(&mut ass_moved);
    proof {
        assert(sidecars@.subrange(1, sidecars@.len() as int) =~= ass_view);
    }
    let settings = encode_settings(&plan.output_profile);
    let validation = output_validation(&plan.output_profile, filter.has_audio_output);
    let kind = output_kind(&plan.output_profile);
    let args = build_args(&inputs, sidecars[0].path.as_str(), context.output_path.as_str(), kind, &settings,
        validation.expected_duration, filter.has_audio_output);
    let mut visual_diagnostics: Vec<RenderVisualDiagnostic> = Vec::new();
    let mut i: usize = 0;
    while i < plan.visual_diagnostics.len()
        invariant
            i <= plan.visual_diagnostics@.len(),
            visual_diagnostics@.len() == i,
            forall|q: int| 0 <= q < i ==> diagnostic_view(#[trigger] visual_diagnostics@[q])
                == diagnostic_view(plan.visual_diagnostics@[q]),
        decreases plan.visual_diagnostics@.len() - i,
    {
        let d = copy_diagnostic(&plan.visual_diagnostics[i]);
        visual_diagnostics.push(d);
        i = i + 1;
    }
    proof {
        assert(visual_diagnostics@.map_values(|d: RenderVisualDiagnostic| diagnostic_view(d))
            =~= plan.visual_diagnostics@.map_values(|d: RenderVisualDiagnostic| diagnostic_view(d)));
    }
    let ghost own = visual_diagnostics@;
    let mut effects = effect_capability_diagnostics(&plan.video_layers, &plan.text.text_overlays, &plan.audio_mixes);
    let ghost effects_view = effects@;
    visual_diagnostics.append(&mut effects);
    proof {
        assert(visual_diagnostics@ == own + effects_view);
        assert(visual_diagnostics@.map_values(|d: RenderVisualDiagnostic| diagnostic_view(d))
            =~= own.map_values(|d: RenderVisualDiagnostic| diagnostic_view(d))
                + effects_view.map_values(|d: RenderVisualDiagnostic| diagnostic_view(d)));
    }
    Ok(FfmpegJob {
        job_id,
        output_kind: kind,
        output_path: context.output_path.clone(),
        inputs,
        sidecars,
        filter_script: filter.contents,
        filter_script_diagnostics: filter.diagnostics,
        encode_settings: settings,
        validation,
        visual_diagnostics,
        args,
    })
}

} // verus!
