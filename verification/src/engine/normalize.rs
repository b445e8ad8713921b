//! Normalization of a draft against an engine profile: checked time
//! ranges, renderability of each segment, visual stacking order and the
//! diagnostics the renderer needs.
use vstd::prelude::*;

use crate::engine::error::{EngineError, EngineErrorKind};
use crate::engine::keyframes::Keyframe;
use crate::engine::model::{
    clone_keyframes, same_retiming, BackgroundFilling, CanvasBackground, CanvasConfig, Draft, ExternalEffectRef, Material,
    MaterialKind, MaterialStatus, RationalFrameRate, Segment, SegmentRetiming, SegmentVisual,
    SourceTimerange, TargetTimerange, TextSegment, Track, TrackKind,
};
use crate::engine::text_layout::{
    default_fallback_candidates, is_blank, is_white_space, layout_profile_problem, same_layout_profile, BundledTextFont, TextWrappingPolicy, TextLayoutProfile, TextSafeArea,
};
use crate::order::{
    is_stable_order, key_view, lemma_stable_order_distinct, stable_order, KeyView, SortKey,
};
use crate::text::{append_str, append_string, clone_opt_string, decimal, lit, strings_view, u64_to_decimal};

verus! {

/// Whether a segment can be rendered, and if not, why.
#[derive(Debug, Clone, Copy, PartialEq, Eq, Structural)]
pub enum MaterialRenderableState {
    Renderable,
    MutedTrack,
    UnavailableMaterial,
}

/// Output settings the engine evaluates a draft against.
#[derive(Debug, Clone)]
pub struct EngineProfile {
    pub frame_rate: RationalFrameRate,
    pub canvas_width: u32,
    pub canvas_height: u32,
    pub canvas_background: CanvasBackground,
    pub text_layout: Option<TextLayoutProfile>,
}

/// What the engine keeps of a segment's material.
#[derive(Debug, Clone)]
pub struct NormalizedMaterialRef {
    pub material_id: String,
    pub kind: MaterialKind,
    pub uri: String,
    pub display_name: String,
    pub status: MaterialStatus,
    pub duration: Option<u64>,
    pub width: Option<u32>,
    pub height: Option<u32>,
    pub has_video: bool,
    pub has_audio: bool,
}

/// A segment with checked range ends and its renderability.
#[derive(Debug, Clone)]
pub struct NormalizedSegment {
    pub segment_id: String,
    pub material: NormalizedMaterialRef,
    pub source_timerange: SourceTimerange,
    pub source_end: u64,
    pub target_timerange: TargetTimerange,
    pub target_end: u64,
    pub retiming: SegmentRetiming,
    pub renderable: MaterialRenderableState,
    pub keyframes: Vec<Keyframe>,
    pub text: Option<TextSegment>,
    pub volume_level_millis: u32,
    pub visual: SegmentVisual,
}

/// A track with its visual stacking position and time-ordered segments.
#[derive(Debug, Clone)]
pub struct NormalizedTrack {
    pub track_id: String,
    pub kind: TrackKind,
    pub name: String,
    pub muted: bool,
    pub stack_index: Option<u32>,
    pub segments: Vec<NormalizedSegment>,
}

/// A classified finding about a draft that does not stop normalization.
#[derive(Debug, Clone)]
pub struct EngineDiagnostic {
    pub kind: EngineErrorKind,
    pub track_id: Option<String>,
    pub segment_id: Option<String>,
    pub material_id: Option<String>,
    pub message: String,
}

/// A draft ready for frame evaluation.
#[derive(Debug, Clone)]
pub struct NormalizedDraft {
    pub draft_id: String,
    pub profile: EngineProfile,
    pub duration: u64,
    pub tracks: Vec<NormalizedTrack>,
    pub diagnostics: Vec<EngineDiagnostic>,
}

impl EngineProfile {
    /// The fallback profile for tests and fixtures: 30 fps, 1920x1080,
    /// black background, default text layout.
    pub fn mvp_default(bundled: &BundledTextFont) -> (p: Self)
        ensures
            p.frame_rate == (RationalFrameRate { numerator: 30, denominator: 1 }),
            p.canvas_width == 1920,
            p.canvas_height == 1080,
            p.canvas_background == CanvasBackground::Black,
            p.text_layout matches Some(t) && t.safe_area == (TextSafeArea { left: 96, right: 96, top: 54, bottom: 54 })
                && t.font_policy.font_family@ == bundled.family@ && t.line_height_millis == 1_200,
    {
        EngineProfile {
            frame_rate: RationalFrameRate::new(30, 1),
            canvas_width: 1920,
            canvas_height: 1080,
            canvas_background: CanvasBackground::Black,
            text_layout: Some(TextLayoutProfile::mvp_default(bundled)),
        }
    }

    /// Checks the frame rate, the canvas size and the text layout.
    pub fn validate(&self) -> (r: Result<(), EngineError>)
        ensures
            r is Ok <==> profile_problem(*self) is None,
            r matches Err(e) ==> profile_problem(*self) == Some((e.kind, e.message@))
                && e.track_id is None && e.segment_id is None && e.material_id is None,
    {
        if self.frame_rate.numerator == 0 || self.frame_rate.denominator == 0 {
            return Err(EngineError::new(
                EngineErrorKind::InvalidFrameRate,
                lit("engine profile frameRate numerator and denominator must be greater than zero"),
            ));
        }
        if self.canvas_width == 0 || self.canvas_height == 0 {
            return Err(EngineError::new(
                EngineErrorKind::InvalidEngineProfile,
                lit("engine profile canvas dimensions must be greater than zero"),
            ));
        }
        match &self.text_layout {
            Some(text_layout) => match text_layout.validate(self.canvas_width, self.canvas_height) {
                Ok(()) => {},
                Err(e) => {
                    return Err(EngineError::new(e.kind, e.message));
                },
            },
            None => {},
        }
        Ok(())
    }
}

/// The first rule an engine profile breaks, as kind and message.
pub open spec fn profile_problem(p: EngineProfile) -> Option<(EngineErrorKind, Seq<char>)> {
    if p.frame_rate.numerator == 0 || p.frame_rate.denominator == 0 {
        Some((EngineErrorKind::InvalidFrameRate, "engine profile frameRate numerator and denominator must be greater than zero"@))
    } else if p.canvas_width == 0 || p.canvas_height == 0 {
        Some((EngineErrorKind::InvalidEngineProfile, "engine profile canvas dimensions must be greater than zero"@))
    } else {
        match p.text_layout {
            Some(t) => match layout_profile_problem(t, p.canvas_width, p.canvas_height) {
                Some(m) => Some((EngineErrorKind::InvalidTextLayoutProfile, m)),
                None => None,
            },
            None => None,
        }
    }
}

/// The text layout for a canvas: the default profile with a safe area of
/// one twentieth of the canvas on each side.
pub fn text_layout_for_canvas(bundled: &BundledTextFont, canvas_width: u32, canvas_height: u32) -> (p: TextLayoutProfile)
    ensures
        p.safe_area == (TextSafeArea {
            left: canvas_width / 20,
            right: canvas_width / 20,
            top: canvas_height / 20,
            bottom: canvas_height / 20,
        }),
        p.font_policy.font_family@ == bundled.family@,
        p.font_policy.font_candidate@ == "VE_TEXT_FONT_PATH"@,
        strings_view(p.font_policy.fallback_candidates@) == default_fallback_candidates(),
        p.wrapping_policy == TextWrappingPolicy::BoundedWidth,
        p.line_height_millis == 1_200,
{
    let mut profile = TextLayoutProfile::mvp_default(bundled);
    profile.safe_area = TextSafeArea {
        left: canvas_width / 20,
        right: canvas_width / 20,
        top: canvas_height / 20,
        bottom: canvas_height / 20,
    };
    profile
}

/// Whether a track kind is drawn on the canvas.
pub open spec fn is_visual_kind(kind: TrackKind) -> bool {
    kind == TrackKind::Video || kind == TrackKind::Text || kind == TrackKind::Sticker
}

/// Whether tracks of this kind are drawn on the canvas.
pub fn is_visual_track(kind: TrackKind) -> (r: bool)
    ensures
        r == is_visual_kind(kind),
{
    match kind {
        TrackKind::Video | TrackKind::Text | TrackKind::Sticker => true,
        _ => false,
    }
}

/// Renderability of a segment on a track that is or is not muted.
pub open spec fn spec_renderable_state(track_muted: bool, status: MaterialStatus) -> MaterialRenderableState {
    if track_muted {
        MaterialRenderableState::MutedTrack
    } else if status != MaterialStatus::Available {
        MaterialRenderableState::UnavailableMaterial
    } else {
        MaterialRenderableState::Renderable
    }
}

/// A muted track wins over an unavailable material.
pub fn renderable_state(track_muted: bool, material_status: MaterialStatus) -> (r: MaterialRenderableState)
    ensures
        r == spec_renderable_state(track_muted, material_status),
{
    if track_muted {
        return MaterialRenderableState::MutedTrack;
    }
    if material_status != MaterialStatus::Available {
        return MaterialRenderableState::UnavailableMaterial;
    }
    MaterialRenderableState::Renderable
}

/// The larger of two times.
pub fn max_microseconds(first: u64, second: u64) -> (r: u64)
    ensures
        r == if first >= second { first } else { second },
{
    if first >= second { first } else { second }
}

/// Position of the material with id `id` that a lookup by id finds (the
/// last one listed), or -1.
pub open spec fn material_index(ms: Seq<Material>, id: Seq<char>) -> int
    decreases ms.len(),
{
    if ms.len() == 0 {
        -1
    } else if ms.last().material_id@ == id {
        ms.len() - 1
    } else {
        material_index(ms.drop_last(), id)
    }
}

proof fn lemma_material_index_range(ms: Seq<Material>, id: Seq<char>)
    ensures
        -1 <= material_index(ms, id) < ms.len(),
        material_index(ms, id) >= 0 ==> ms[material_index(ms, id)].material_id@ == id,
    decreases ms.len(),
{
    if ms.len() > 0 && ms.last().material_id@ != id {
        lemma_material_index_range(ms.drop_last(), id);
    }
}

fn find_material(materials: &Vec<Material>, id: &String) -> (r: Option<usize>)
    ensures
        match r {
            Some(i) => i as int == material_index(materials@, id@) && i < materials@.len(),
            None => material_index(materials@, id@) == -1,
        },
{
    let mut i: usize = materials.len();
    assert(materials@.subrange(0, materials@.len() as int) =~= materials@);
    while i > 0
        invariant
            i <= materials@.len(),
            material_index(materials@, id@) == material_index(materials@.subrange(0, i as int), id@),
        decreases i,
    {
        proof {
            assert(materials@.subrange(0, i as int).drop_last() =~= materials@.subrange(0, i - 1));
        }
        if crate::text::str_eq(materials[i - 1].material_id.as_str(), id.as_str()) {
            return Some(i - 1);
        }
        i = i - 1;
    }
    None
}

/// The debug name of a material status.
pub open spec fn status_name(s: MaterialStatus) -> Seq<char> {
    match s {
        MaterialStatus::Available => "Available"@,
        MaterialStatus::Missing => "Missing"@,
        MaterialStatus::ProbeFailed => "ProbeFailed"@,
    }
}

fn status_label(s: MaterialStatus) -> (r: &'static str)
    ensures
        r@ == status_name(s),
{
    match s {
        MaterialStatus::Available => "Available",
        MaterialStatus::Missing => "Missing",
        MaterialStatus::ProbeFailed => "ProbeFailed",
    }
}

/// The value of a diagnostic: kind, track, segment, material, message.
pub type DiagnosticView = (EngineErrorKind, Option<Seq<char>>, Option<Seq<char>>, Option<Seq<char>>, Seq<char>);

pub open spec fn diagnostic_view(d: EngineDiagnostic) -> DiagnosticView {
    (d.kind, opt_view(d.track_id), opt_view(d.segment_id), opt_view(d.material_id), d.message@)
}

pub open spec fn opt_view(o: Option<String>) -> Option<Seq<char>> {
    match o {
        Some(s) => Some(s@),
        None => None,
    }
}

pub open spec fn diagnostics_view(v: Seq<EngineDiagnostic>) -> Seq<DiagnosticView> {
    v.map_values(|d: EngineDiagnostic| diagnostic_view(d))
}

/// A diagnostic about one segment of one track.
pub open spec fn segment_diagnostic(kind: EngineErrorKind, track_id: Seq<char>, segment_id: Seq<char>, material_id: Seq<char>, message: Seq<char>) -> DiagnosticView {
    (kind, Some(track_id), Some(segment_id), Some(material_id), message)
}

/// Diagnostics about a segment's visual intent that rendering cannot yet honour.
pub open spec fn visual_diagnostics(track_id: Seq<char>, segment_id: Seq<char>, material_id: Seq<char>, visual: SegmentVisual) -> Seq<DiagnosticView> {
    let background: Seq<DiagnosticView> = match visual.background_filling {
        BackgroundFilling::Blur => seq![segment_diagnostic(EngineErrorKind::DegradedVisualIntent, track_id, segment_id, material_id,
            "segment backgroundFilling blur is preserved as degraded until render support is implemented"@)],
        BackgroundFilling::Image { .. } => seq![segment_diagnostic(EngineErrorKind::UnsupportedVisualIntent, track_id, segment_id, material_id,
            "segment backgroundFilling image is unsupported until segment background material rendering is implemented"@)],
        _ => Seq::empty(),
    };
    let blend: Seq<DiagnosticView> = match visual.blend_reference {
        Some(r) => seq![segment_diagnostic(EngineErrorKind::UnsupportedVisualIntent, track_id, segment_id, material_id,
            "segment blendMode external reference "@ + r.provider@ + ":"@ + r.effect_id@ + " is unsupported"@)],
        None => Seq::empty(),
    };
    let mask: Seq<DiagnosticView> = match visual.mask_reference {
        Some(r) => seq![segment_diagnostic(EngineErrorKind::UnsupportedVisualIntent, track_id, segment_id, material_id,
            "segment mask external reference "@ + r.provider@ + ":"@ + r.effect_id@ + " is unsupported"@)],
        None => Seq::empty(),
    };
    background + blend + mask
}

/// Diagnostics that normalizing a segment records.
pub open spec fn segment_diagnostics(track: Track, seg: Segment, m: Material) -> Seq<DiagnosticView> {
    let state = spec_renderable_state(track.muted, m.status);
    let muted: Seq<DiagnosticView> = if state == MaterialRenderableState::MutedTrack {
        seq![segment_diagnostic(EngineErrorKind::MutedTrack, track.track_id@, seg.segment_id@, m.material_id@,
            "track "@ + track.track_id@ + " is muted; segment "@ + seg.segment_id@ + " is non-renderable"@)]
    } else {
        Seq::empty()
    };
    let unavailable: Seq<DiagnosticView> = if state == MaterialRenderableState::UnavailableMaterial {
        seq![segment_diagnostic(EngineErrorKind::UnavailableMaterial, track.track_id@, seg.segment_id@, m.material_id@,
            "material "@ + m.material_id@ + " is "@ + status_name(m.status) + "; segment "@ + seg.segment_id@ + " is non-renderable"@)]
    } else {
        Seq::empty()
    };
    let visual: Seq<DiagnosticView> = if is_visual_kind(track.kind) {
        visual_diagnostics(track.track_id@, seg.segment_id@, m.material_id@, seg.visual)
    } else {
        Seq::empty()
    };
    muted + unavailable + visual
}

/// Why a segment cannot be normalized, as kind and message.
pub open spec fn segment_problem(seg: Segment, ms: Seq<Material>) -> Option<(EngineErrorKind, Seq<char>)> {
    let mi = material_index(ms, seg.material_id@);
    let source_end = seg.source_timerange.start + seg.source_timerange.duration;
    if mi < 0 {
        Some((EngineErrorKind::MissingMaterial,
            "segment "@ + seg.segment_id@ + " references missing material "@ + seg.material_id@))
    } else if source_end > u64::MAX {
        Some((EngineErrorKind::TimerangeOverflow,
            "segment "@ + seg.segment_id@ + " sourceTimerange start + duration overflowed u64 microseconds"@))
    } else if seg.target_timerange.start + seg.target_timerange.duration > u64::MAX {
        Some((EngineErrorKind::TimerangeOverflow,
            "segment "@ + seg.segment_id@ + " targetTimerange start + duration overflowed u64 microseconds"@))
    } else {
        match ms[mi].duration {
            Some(d) => if source_end > d {
                Some((EngineErrorKind::SourceRangeExceedsMaterialDuration,
                    "segment "@ + seg.segment_id@ + " sourceTimerange ends at "@ + decimal(source_end as nat)
                        + " but material "@ + ms[mi].material_id@ + " duration is "@ + decimal(d as nat)))
            } else {
                None
            },
            None => None,
        }
    }
}

/// `ns` is the normalized form of `seg` on `track`, with material `m`.
pub open spec fn segment_normalized(ns: NormalizedSegment, track: Track, seg: Segment, m: Material) -> bool {
    &&& ns.segment_id@ == seg.segment_id@
    &&& ns.material.material_id@ == m.material_id@
    &&& ns.material.kind == m.kind
    &&& ns.material.uri@ == m.uri@
    &&& ns.material.display_name@ == m.display_name@
    &&& ns.material.status == m.status
    &&& ns.material.duration == m.duration
    &&& ns.material.width == m.width
    &&& ns.material.height == m.height
    &&& ns.material.has_video == m.has_video
    &&& ns.material.has_audio == m.has_audio
    &&& ns.source_timerange == seg.source_timerange
    &&& ns.source_end == seg.source_timerange.start + seg.source_timerange.duration
    &&& ns.target_timerange == seg.target_timerange
    &&& ns.target_end == seg.target_timerange.start + seg.target_timerange.duration
    &&& same_retiming(ns.retiming, seg.retiming)
    &&& ns.renderable == spec_renderable_state(track.muted, m.status)
    &&& ns.keyframes@ == seg.keyframes@
    &&& ns.text == seg.text
    &&& ns.volume_level_millis == seg.volume_level_millis
    &&& ns.visual == seg.visual
}

fn segment_error(kind: EngineErrorKind, message: String, track_id: &String, segment_id: &String, material_id: &String) -> (e: EngineError)
    ensures
        e.kind == kind,
        e.message@ == message@,
        e.track_id == Some(*track_id),
        e.segment_id == Some(*segment_id),
        e.material_id == Some(*material_id),
{
    EngineError::new(kind, message)
        .with_track_id(track_id.clone())
        .with_segment_id(segment_id.clone())
        .with_material_id(material_id.clone())
}

fn push_segment_diagnostic(
    diagnostics: &mut Vec<EngineDiagnostic>,
    kind: EngineErrorKind,
    track_id: &String,
    segment_id: &String,
    material_id: &String,
    message: String,
)
    ensures
        diagnostics_view(final(diagnostics)@) == diagnostics_view(old(diagnostics)@).push(
            segment_diagnostic(kind, track_id@, segment_id@, material_id@, message@),
        ),
{
    diagnostics.push(EngineDiagnostic {
        kind,
        track_id: Some(track_id.clone()),
        segment_id: Some(segment_id.clone()),
        material_id: Some(material_id.clone()),
        message,
    });
    proof {
        assert(diagnostics_view(diagnostics@) =~= diagnostics_view(old(diagnostics)@).push(
            segment_diagnostic(kind, track_id@, segment_id@, material_id@, message@),
        ));
    }
}

fn external_reference_message(prefix: &str, r: &ExternalEffectRef) -> (m: String)
    ensures
        m@ == prefix@ + r.provider@ + ":"@ + r.effect_id@ + " is unsupported"@,
{
    let mut m = lit(prefix);
    append_string(&mut m, &r.provider);
    append_str(&mut m, ":");
    append_string(&mut m, &r.effect_id);
    append_str(&mut m, " is unsupported");
    m
}

fn collect_visual_diagnostics(
    track_id: &String,
    segment_id: &String,
    material_id: &String,
    visual: &SegmentVisual,
    diagnostics: &mut Vec<EngineDiagnostic>,
)
    ensures
        diagnostics_view(final(diagnostics)@) == diagnostics_view(old(diagnostics)@)
            + visual_diagnostics(track_id@, segment_id@, material_id@, *visual),
{
    let ghost start = diagnostics_view(diagnostics@);
    match &visual.background_filling {
        BackgroundFilling::Blur => {
            push_segment_diagnostic(diagnostics, EngineErrorKind::DegradedVisualIntent, track_id, segment_id, material_id,
                lit("segment backgroundFilling blur is preserved as degraded until render support is implemented"));
        },
        BackgroundFilling::Image { .. } => {
            push_segment_diagnostic(diagnostics, EngineErrorKind::UnsupportedVisualIntent, track_id, segment_id, material_id,
                lit("segment backgroundFilling image is unsupported until segment background material rendering is implemented"));
        },
        _ => {},
    }
    let ghost after_background = diagnostics_view(diagnostics@);
    match &visual.blend_reference {
        Some(r) => {
            let m = external_reference_message("segment blendMode external reference ", r);
            push_segment_diagnostic(diagnostics, EngineErrorKind::UnsupportedVisualIntent, track_id, segment_id, material_id, m);
        },
        None => {},
    }
    let ghost after_blend = diagnostics_view(diagnostics@);
    match &visual.mask_reference {
        Some(r) => {
            let m = external_reference_message("segment mask external reference ", r);
            push_segment_diagnostic(diagnostics, EngineErrorKind::UnsupportedVisualIntent, track_id, segment_id, material_id, m);
        },
        None => {},
    }
    proof {
        let v = visual_diagnostics(track_id@, segment_id@, material_id@, *visual);
        assert(diagnostics_view(diagnostics@) =~= start + v);
    }
}

/// Normalizes one segment of `track`: finds its material, checks both
/// range ends and the material's duration, decides renderability and
/// records the segment's diagnostics.
pub fn normalize_segment(
    track: &Track,
    segment: &Segment,
    materials: &Vec<Material>,
    diagnostics: &mut Vec<EngineDiagnostic>,
) -> (r: Result<NormalizedSegment, EngineError>)
    ensures
        match r {
            Ok(ns) => segment_problem(*segment, materials@) is None
                && segment_normalized(ns, *track, *segment, materials@[material_index(materials@, segment.material_id@)])
                && diagnostics_view(final(diagnostics)@) == diagnostics_view(old(diagnostics)@)
                    + segment_diagnostics(*track, *segment, materials@[material_index(materials@, segment.material_id@)]),
            Err(e) => segment_problem(*segment, materials@) == Some((e.kind, e.message@))
                && opt_view(e.track_id) == Some(track.track_id@)
                && opt_view(e.segment_id) == Some(segment.segment_id@)
                && opt_view(e.material_id) == Some(segment.material_id@)
                && final(diagnostics)@ == old(diagnostics)@,
        },
{
    proof {
        lemma_material_index_range(materials@, segment.material_id@);
    }
    let mi = match find_material(materials, &segment.material_id) {
        Some(i) => i,
        None => {
            let mut message = lit("segment ");
            append_string(&mut message, &segment.segment_id);
            append_str(&mut message, " references missing material ");
            append_string(&mut message, &segment.material_id);
            return Err(segment_error(EngineErrorKind::MissingMaterial, message, &track.track_id,
                &segment.segment_id, &segment.material_id));
        },
    };
    let material = &materials[mi];
    if segment.source_timerange.duration > u64::MAX - segment.source_timerange.start {
        let mut message = lit("segment ");
        append_string(&mut message, &segment.segment_id);
        append_str(&mut message, " sourceTimerange start + duration overflowed u64 microseconds");
        return Err(segment_error(EngineErrorKind::TimerangeOverflow, message, &track.track_id,
            &segment.segment_id, &segment.material_id));
    }
    let source_end = segment.source_timerange.start + segment.source_timerange.duration;
    if segment.target_timerange.duration > u64::MAX - segment.target_timerange.start {
        let mut message = lit("segment ");
        append_string(&mut message, &segment.segment_id);
        append_str(&mut message, " targetTimerange start + duration overflowed u64 microseconds");
        return Err(segment_error(EngineErrorKind::TimerangeOverflow, message, &track.track_id,
            &segment.segment_id, &segment.material_id));
    }
    let target_end = segment.target_timerange.start + segment.target_timerange.duration;
    match material.duration {
        Some(material_duration) => {
            if source_end > material_duration {
                let mut message = lit("segment ");
                append_string(&mut message, &segment.segment_id);
                append_str(&mut message, " sourceTimerange ends at ");
                let end_text = u64_to_decimal(source_end);
                append_string(&mut message, &end_text);
                append_str(&mut message, " but material ");
                append_string(&mut message, &material.material_id);
                append_str(&mut message, " duration is ");
                let duration_text = u64_to_decimal(material_duration);
                append_string(&mut message, &duration_text);
                return Err(segment_error(EngineErrorKind::SourceRangeExceedsMaterialDuration, message,
                    &track.track_id, &segment.segment_id, &material.material_id));
            }
        },
        None => {},
    }
    let ghost start = diagnostics_view(diagnostics@);
    let renderable = renderable_state(track.muted, material.status);
    if renderable == MaterialRenderableState::MutedTrack {
        let mut message = lit("track ");
        append_string(&mut message, &track.track_id);
        append_str(&mut message, " is muted; segment ");
        append_string(&mut message, &segment.segment_id);
        append_str(&mut message, " is non-renderable");
        push_segment_diagnostic(diagnostics, EngineErrorKind::MutedTrack, &track.track_id, &segment.segment_id,
            &material.material_id, message);
    }
    if renderable == MaterialRenderableState::UnavailableMaterial {
        let mut message = lit("material ");
        append_string(&mut message, &material.material_id);
        append_str(&mut message, " is ");
        append_str(&mut message, status_label(material.status));
        append_str(&mut message, "; segment ");
        append_string(&mut message, &segment.segment_id);
        append_str(&mut message, " is non-renderable");
        push_segment_diagnostic(diagnostics, EngineErrorKind::UnavailableMaterial, &track.track_id,
            &segment.segment_id, &material.material_id, message);
    }
    let ghost before_visual = diagnostics_view(diagnostics@);
    if is_visual_track(track.kind) {
        collect_visual_diagnostics(&track.track_id, &segment.segment_id, &material.material_id, &segment.visual, diagnostics);
    }
    proof {
        let m = materials@[mi as int];
        assert(diagnostics_view(diagnostics@) =~= start + segment_diagnostics(*track, *segment, m));
    }
    Ok(NormalizedSegment {
        segment_id: segment.segment_id.clone(),
        material: NormalizedMaterialRef {
            material_id: material.material_id.clone(),
            kind: material.kind,
            uri: material.uri.clone(),
            display_name: material.display_name.clone(),
            status: material.status,
            duration: material.duration,
            width: material.width,
            height: material.height,
            has_video: material.has_video,
            has_audio: material.has_audio,
        },
        source_timerange: segment.source_timerange,
        source_end,
        target_timerange: segment.target_timerange,
        target_end,
        retiming: segment.retiming.duplicate(),
        renderable,
        keyframes: clone_keyframes(&segment.keyframes),
        text: match &segment.text {
            Some(t) => Some(t.duplicate()),
            None => None,
        },
        volume_level_millis: segment.volume_level_millis,
        visual: segment.visual.duplicate(),
    })
}

/// Two engine profiles with the same settings.
pub open spec fn same_profile(a: EngineProfile, b: EngineProfile) -> bool {
    &&& a.frame_rate == b.frame_rate
    &&& a.canvas_width == b.canvas_width
    &&& a.canvas_height == b.canvas_height
    &&& a.canvas_background == b.canvas_background
    &&& match (a.text_layout, b.text_layout) {
        (Some(x), Some(y)) => same_layout_profile(x, y),
        (None, None) => true,
        _ => false,
    }
}

impl EngineProfile {
    /// A copy with the same settings.
    pub fn duplicate(&self) -> (r: Self)
        ensures
            same_profile(r, *self),
    {
        EngineProfile {
            frame_rate: self.frame_rate,
            canvas_width: self.canvas_width,
            canvas_height: self.canvas_height,
            canvas_background: self.canvas_background.duplicate(),
            text_layout: match &self.text_layout {
                Some(t) => Some(t.duplicate()),
                None => None,
            },
        }
    }

    /// The profile a draft's canvas asks for: its frame rate, size and
    /// background, with the text layout scaled to the canvas. The draft
    /// itself must have passed validation (`draft_validation`).
    pub fn from_draft_canvas(
        bundled: &BundledTextFont,
        draft: &Draft,
        draft_validation: &Result<(), String>,
    ) -> (r: Result<EngineProfile, EngineError>)
        ensures
            match r {
                Ok(p) => draft_validation is Ok && canvas_profile_problem(*bundled, draft.canvas_config) is None
                    && profile_problem(p) is None
                    && p.frame_rate == draft.canvas_config.frame_rate
                    && p.canvas_width == draft.canvas_config.width
                    && p.canvas_height == draft.canvas_config.height
                    && p.canvas_background == draft.canvas_config.background
                    && (p.text_layout matches Some(t) && t.safe_area == (TextSafeArea {
                        left: draft.canvas_config.width / 20,
                        right: draft.canvas_config.width / 20,
                        top: draft.canvas_config.height / 20,
                        bottom: draft.canvas_config.height / 20,
                    }) && t.font_policy.font_family@ == bundled.family@ && t.font_policy.font_candidate@ == "VE_TEXT_FONT_PATH"@),
                Err(e) => match draft_validation {
                    Err(m) => e.kind == EngineErrorKind::DraftValidationFailed && e.message@ == m@,
                    Ok(()) => canvas_profile_problem(*bundled, draft.canvas_config) == Some((e.kind, e.message@)),
                },
            },
    {
        match draft_validation {
            Err(m) => return Err(EngineError::new(EngineErrorKind::DraftValidationFailed, m.clone())),
            Ok(()) => {},
        }
        let canvas = &draft.canvas_config;
        let profile = EngineProfile {
            frame_rate: canvas.frame_rate,
            canvas_width: canvas.width,
            canvas_height: canvas.height,
            canvas_background: canvas.background.duplicate(),
            text_layout: Some(text_layout_for_canvas(bundled, canvas.width, canvas.height)),
        };
        proof {
            let t = profile.text_layout->0;
            reveal_strlit("VE_TEXT_FONT_PATH");
            assert(strings_view(t.font_policy.fallback_candidates@)[0] == "VE_TEXT_FONT_PATH"@);
            assert("VE_TEXT_FONT_PATH"@[0] == 'V');
            assert(!is_white_space(t.font_policy.font_candidate@[0]));
            assert(!is_blank(t.font_policy.font_candidate@));
            assert(strings_view(t.font_policy.fallback_candidates@).contains(t.font_policy.font_candidate@));
            assert(profile_problem(profile) == canvas_profile_problem(*bundled, *canvas));
        }
        match profile.validate() {
            Ok(()) => Ok(profile),
            Err(e) => Err(e),
        }
    }
}

/// The first rule that the profile derived from a canvas breaks.
pub open spec fn canvas_profile_problem(bundled: BundledTextFont, c: CanvasConfig) -> Option<(EngineErrorKind, Seq<char>)> {
    if c.frame_rate.numerator == 0 || c.frame_rate.denominator == 0 {
        Some((EngineErrorKind::InvalidFrameRate, "engine profile frameRate numerator and denominator must be greater than zero"@))
    } else if c.width == 0 || c.height == 0 {
        Some((EngineErrorKind::InvalidEngineProfile, "engine profile canvas dimensions must be greater than zero"@))
    } else if is_blank(bundled.family@) {
        Some((EngineErrorKind::InvalidTextLayoutProfile, "text font policy fontFamily must be pinned"@))
    } else if c.width / 20 + c.width / 20 >= c.width {
        Some((EngineErrorKind::InvalidTextLayoutProfile, "text layout horizontal safe-area exceeds canvas width"@))
    } else if c.height / 20 + c.height / 20 >= c.height {
        Some((EngineErrorKind::InvalidTextLayoutProfile, "text layout vertical safe-area exceeds canvas height"@))
    } else {
        None
    }
}

/// Whether normalization keeps a track: hidden visual tracks are dropped.
pub open spec fn track_included(t: Track) -> bool {
    !(is_visual_kind(t.kind) && !t.visible)
}

/// Number of kept visual tracks among the first `i` tracks.
pub open spec fn visual_rank(ts: Seq<Track>, i: int) -> int
    decreases i,
{
    if i <= 0 {
        0
    } else {
        visual_rank(ts, i - 1) + if track_included(ts[i - 1]) && is_visual_kind(ts[i - 1].kind) { 1int } else { 0int }
    }
}

/// Positions of the kept tracks among the first `i`.
pub open spec fn included_indices(ts: Seq<Track>, i: int) -> Seq<int>
    decreases i,
{
    if i <= 0 {
        Seq::empty()
    } else if track_included(ts[i - 1]) {
        included_indices(ts, i - 1).push(i - 1)
    } else {
        included_indices(ts, i - 1)
    }
}

/// The first problem among the first `j` segments of a track.
pub open spec fn first_segment_problem(t: Track, ms: Seq<Material>, j: int) -> Option<(EngineErrorKind, Seq<char>)>
    decreases j,
{
    if j <= 0 {
        None
    } else {
        match first_segment_problem(t, ms, j - 1) {
            Some(p) => Some(p),
            None => segment_problem(t.segments@[j - 1], ms),
        }
    }
}

/// The problem that stops normalization at track `i`, if any.
pub open spec fn track_problem(ts: Seq<Track>, i: int, ms: Seq<Material>) -> Option<(EngineErrorKind, Seq<char>)> {
    let t = ts[i];
    if !track_included(t) {
        None
    } else if is_visual_kind(t.kind) && visual_rank(ts, i) >= u32::MAX {
        Some((EngineErrorKind::TimerangeOverflow, "visual track stack index overflowed"@))
    } else {
        first_segment_problem(t, ms, t.segments@.len() as int)
    }
}

/// The first problem among the first `i` tracks.
pub open spec fn tracks_problem(ts: Seq<Track>, ms: Seq<Material>, i: int) -> Option<(EngineErrorKind, Seq<char>)>
    decreases i,
{
    if i <= 0 {
        None
    } else {
        match tracks_problem(ts, ms, i - 1) {
            Some(p) => Some(p),
            None => track_problem(ts, i - 1, ms),
        }
    }
}

/// The first problem that stops a draft from being normalized.
pub open spec fn draft_problem(d: Draft, p: EngineProfile, validation: Result<(), String>) -> Option<(EngineErrorKind, Seq<char>)> {
    if profile_problem(p) is Some {
        profile_problem(p)
    } else {
        match validation {
            Err(m) => Some((EngineErrorKind::DraftValidationFailed, m@)),
            Ok(()) => tracks_problem(d.tracks@, d.materials@, d.tracks@.len() as int),
        }
    }
}

/// The material a segment's lookup finds.
pub open spec fn segment_material(seg: Segment, ms: Seq<Material>) -> Material {
    ms[material_index(ms, seg.material_id@)]
}

/// Diagnostics of the first `j` segments of a track, in track order.
pub open spec fn track_diagnostics(t: Track, ms: Seq<Material>, j: int) -> Seq<DiagnosticView>
    decreases j,
{
    if j <= 0 {
        Seq::empty()
    } else {
        track_diagnostics(t, ms, j - 1) + segment_diagnostics(t, t.segments@[j - 1], segment_material(t.segments@[j - 1], ms))
    }
}

/// Diagnostics of the kept tracks among the first `i`.
pub open spec fn all_diagnostics(ts: Seq<Track>, ms: Seq<Material>, i: int) -> Seq<DiagnosticView>
    decreases i,
{
    if i <= 0 {
        Seq::empty()
    } else if track_included(ts[i - 1]) {
        all_diagnostics(ts, ms, i - 1) + track_diagnostics(ts[i - 1], ms, ts[i - 1].segments@.len() as int)
    } else {
        all_diagnostics(ts, ms, i - 1)
    }
}

/// Latest target end among the first `j` segments of a track (0 if none).
pub open spec fn track_end(t: Track, j: int) -> int
    decreases j,
{
    if j <= 0 {
        0
    } else {
        let e = t.segments@[j - 1].target_timerange.start + t.segments@[j - 1].target_timerange.duration;
        let m = track_end(t, j - 1);
        if m >= e { m } else { e }
    }
}

/// Latest target end over the kept tracks among the first `i`.
pub open spec fn draft_duration(ts: Seq<Track>, i: int) -> int
    decreases i,
{
    if i <= 0 {
        0
    } else {
        let m = draft_duration(ts, i - 1);
        if track_included(ts[i - 1]) {
            let e = track_end(ts[i - 1], ts[i - 1].segments@.len() as int);
            if m >= e { m } else { e }
        } else {
            m
        }
    }
}

/// Sort keys of a track's segments: target start, then segment id.
pub open spec fn segment_keys(t: Track) -> Seq<KeyView> {
    t.segments@.map_values(|s: Segment| (s.target_timerange.start as int, s.segment_id@, Seq::<char>::empty()))
}

/// `segs` are the segments of `t`, normalized, in the stable order `order`.
pub open spec fn segments_in_order(segs: Seq<NormalizedSegment>, t: Track, ms: Seq<Material>, order: Seq<int>) -> bool {
    &&& is_stable_order(segment_keys(t), order)
    &&& segs.len() == t.segments@.len()
    &&& forall|k: int| 0 <= k < segs.len() ==> segment_normalized(#[trigger] segs[k], t, t.segments@[order[k]],
        segment_material(t.segments@[order[k]], ms))
}

/// `nt` is the normalized form of track `i`.
pub open spec fn track_normalized(nt: NormalizedTrack, ts: Seq<Track>, i: int, ms: Seq<Material>) -> bool {
    let t = ts[i];
    &&& nt.track_id@ == t.track_id@
    &&& nt.kind == t.kind
    &&& nt.name@ == t.name@
    &&& nt.muted == t.muted
    &&& nt.stack_index == if is_visual_kind(t.kind) { Some(visual_rank(ts, i) as u32) } else { None }
    &&& exists|order: Seq<int>| #[trigger] segments_in_order(nt.segments@, t, ms, order)
}

proof fn lemma_visual_rank_bound(ts: Seq<Track>, i: int)
    ensures
        0 <= visual_rank(ts, i) <= if i < 0 { 0 } else { i },
    decreases i,
{
    if i > 0 {
        lemma_visual_rank_bound(ts, i - 1);
    }
}

proof fn lemma_track_end_bound(t: Track, j: int)
    requires
        j <= t.segments@.len(),
        forall|q: int| 0 <= q < j ==> (#[trigger] t.segments@[q]).target_timerange.start + t.segments@[q].target_timerange.duration <= u64::MAX,
    ensures
        0 <= track_end(t, j) <= u64::MAX,
    decreases j,
{
    if j > 0 {
        lemma_track_end_bound(t, j - 1);
    }
}

proof fn lemma_first_problem_none_prefix(t: Track, ms: Seq<Material>, j: int, q: int)
    requires
        0 <= q < j,
        first_segment_problem(t, ms, j) is None,
    ensures
        segment_problem(t.segments@[q], ms) is None,
    decreases j,
{
    if q < j - 1 {
        lemma_first_problem_none_prefix(t, ms, j - 1, q);
    }
}

/// Normalizes a draft against a profile: validates the profile, takes the
/// draft's own validation result, keeps visible visual tracks and all
/// others, numbers visual tracks in order, normalizes every segment, orders
/// each track's segments by target start then id, and records the latest
/// segment end as the draft's duration.
pub fn normalize_draft(
    draft: &Draft,
    profile: &EngineProfile,
    draft_validation: &Result<(), String>,
) -> (r: Result<NormalizedDraft, EngineError>)
    ensures
        match r {
            Ok(nd) => {
                let ts = draft.tracks@;
                let ms = draft.materials@;
                let inc = included_indices(ts, ts.len() as int);
                &&& draft_problem(*draft, *profile, *draft_validation) is None
                &&& nd.draft_id@ == draft.draft_id@
                &&& same_profile(nd.profile, *profile)
                &&& nd.tracks@.len() == inc.len()
                &&& forall|k: int| 0 <= k < inc.len() ==> track_normalized(#[trigger] nd.tracks@[k], ts, inc[k], ms)
                &&& nd.duration == draft_duration(ts, ts.len() as int)
                &&& diagnostics_view(nd.diagnostics@) == all_diagnostics(ts, ms, ts.len() as int)
            },
            Err(e) => draft_problem(*draft, *profile, *draft_validation) == Some((e.kind, e.message@)),
        },
{
    match profile.validate() {
        Ok(()) => {},
        Err(e) => return Err(e),
    }
    match draft_validation {
        Err(m) => return Err(EngineError::new(EngineErrorKind::DraftValidationFailed, m.clone())),
        Ok(()) => {},
    }
    let ghost ts = draft.tracks@;
    let ghost ms = draft.materials@;
    let mut diagnostics: Vec<EngineDiagnostic> = Vec::new();
    let mut duration: u64 = 0;
    let mut visual_stack_index: u32 = 0;
    let mut tracks: Vec<NormalizedTrack> = Vec::new();
    let mut i: usize = 0;
    while i < draft.tracks.len()
        invariant
            ts == draft.tracks@,
            ms == draft.materials@,
            profile_problem(*profile) is None,
            *draft_validation is Ok,
            i <= ts.len(),
            tracks_problem(ts, ms, i as int) is None,
            visual_stack_index == visual_rank(ts, i as int),
            tracks@.len() == included_indices(ts, i as int).len(),
            forall|k: int| 0 <= k < tracks@.len() ==> track_normalized(#[trigger] tracks@[k], ts, included_indices(ts, i as int)[k], ms),
            duration == draft_duration(ts, i as int),
            diagnostics_view(diagnostics@) == all_diagnostics(ts, ms, i as int),
        decreases ts.len() - i,
    {
        let track = &draft.tracks[i];
        let visual = is_visual_track(track.kind);
        if visual && !track.visible {
            proof {
                assert(included_indices(ts, i + 1) == included_indices(ts, i as int));
            }
            i = i + 1;
            continue;
        }
        let stack_index: Option<u32> = if visual {
            if visual_stack_index == u32::MAX {
                proof {
                    assert(tracks_problem(ts, ms, i + 1) == track_problem(ts, i as int, ms));
                    lemma_tracks_problem_extends(ts, ms, i as int + 1);
                }
                return Err(EngineError::new(EngineErrorKind::TimerangeOverflow, lit("visual track stack index overflowed")));
            }
            let index = visual_stack_index;
            visual_stack_index = visual_stack_index + 1;
            Some(index)
        } else {
            None
        };
        let ghost t = *track;
        let ghost diag_start = diagnostics_view(diagnostics@);
        let mut pending: Vec<Option<NormalizedSegment>> = Vec::new();
        let mut keys: Vec<SortKey> = Vec::new();
        let mut end: u64 = 0;
        let mut j: usize = 0;
        while j < track.segments.len()
            invariant
                ts == draft.tracks@,
                ms == draft.materials@,
                profile_problem(*profile) is None,
                *draft_validation is Ok,
                i < ts.len(),
                t == ts[i as int],
                *track == t,
                track_included(t),
                tracks_problem(ts, ms, i as int) is None,
                !(is_visual_kind(t.kind) && visual_rank(ts, i as int) >= u32::MAX),
                j <= t.segments@.len(),
                first_segment_problem(t, ms, j as int) is None,
                pending@.len() == j,
                keys@.len() == j,
                forall|q: int| 0 <= q < j ==> ((#[trigger] pending@[q]) matches Some(ns)
                    && segment_normalized(ns, t, t.segments@[q], segment_material(t.segments@[q], ms))),
                forall|q: int| 0 <= q < j ==> key_view(#[trigger] keys@[q]) == segment_keys(t)[q],
                end == track_end(t, j as int),
                diagnostics_view(diagnostics@) == diag_start + track_diagnostics(t, ms, j as int),
            decreases t.segments@.len() - j,
        {
            let segment = &track.segments[j];
            let ns = match normalize_segment(track, segment, &draft.materials, &mut diagnostics) {
                Ok(ns) => ns,
                Err(e) => {
                    proof {
                        assert(first_segment_problem(t, ms, j + 1) == segment_problem(t.segments@[j as int], ms));
                        lemma_first_segment_problem_extends(t, ms, j as int + 1);
                        assert(tracks_problem(ts, ms, i + 1) == track_problem(ts, i as int, ms));
                        lemma_tracks_problem_extends(ts, ms, i as int + 1);
                    }
                    return Err(EngineError::new(e.kind, e.message));
                },
            };
            let seg_end = ns.target_end;
            end = max_microseconds(end, seg_end);
            keys.push(SortKey { rank: segment.target_timerange.start, first: segment.segment_id.clone(), second: String::new() });
            pending.push(Some(ns));
            j = j + 1;
        }
        let order = stable_order(&keys);
        let ghost ov = order@.map_values(|x: usize| x as int);
        proof {
            assert(keys@.map_values(|k: SortKey| key_view(k)) =~= segment_keys(t));
        }
        let mut segments: Vec<NormalizedSegment> = Vec::new();
        let mut k: usize = 0;
        while k < order.len()
            invariant
                ov == order@.map_values(|x: usize| x as int),
                is_stable_order(segment_keys(t), ov),
                order@.len() == t.segments@.len(),
                pending@.len() == t.segments@.len(),
                k <= order@.len(),
                segments@.len() == k,
                forall|a: int| 0 <= a < k ==> segment_normalized(#[trigger] segments@[a], t, t.segments@[ov[a]],
                    segment_material(t.segments@[ov[a]], ms)),
                forall|a: int| k <= a < order@.len() ==> (pending@[#[trigger] ov[a]] matches Some(ns)
                    && segment_normalized(ns, t, t.segments@[ov[a]], segment_material(t.segments@[ov[a]], ms))),
            decreases order@.len() - k,
        {
            let idx = order[k];
            proof {
                assert(ov[k as int] == idx as int);
                assert(0 <= ov[k as int] < t.segments@.len());
            }
            let mut taken: Option<NormalizedSegment> = None;
            std::mem::swap(&mut pending[idx], &mut taken);
            proof {
                assert forall|a: int| k + 1 <= a < order@.len() implies (pending@[#[trigger] ov[a]] matches Some(ns)
                    && segment_normalized(ns, t, t.segments@[ov[a]], segment_material(t.segments@[ov[a]], ms))) by {
                    lemma_stable_order_distinct(segment_keys(t), ov, a, k as int);
                }
            }
            match taken {
                Some(ns) => {
                    segments.push(ns);
                },
                None => {
                    proof {
                        assert(false);
                    }
                },
            }
            k = k + 1;
        }
        proof {
            assert(segments_in_order(segments@, t, ms, ov));
            lemma_track_end_bound_all(t, ms, j as int);
        }
        duration = max_microseconds(duration, end);
        tracks.push(NormalizedTrack {
            track_id: track.track_id.clone(),
            kind: track.kind,
            name: track.name.clone(),
            muted: track.muted,
            stack_index,
            segments,
        });
        proof {
            let inc = included_indices(ts, i as int);
            assert(included_indices(ts, i + 1) == inc.push(i as int));
            assert(tracks_problem(ts, ms, i + 1) == track_problem(ts, i as int, ms));
            assert forall|q: int| 0 <= q < tracks@.len() implies track_normalized(#[trigger] tracks@[q], ts, included_indices(ts, i + 1)[q], ms) by {
                if q < inc.len() {
                    assert(included_indices(ts, i + 1)[q] == inc[q]);
                } else {
                    assert(included_indices(ts, i + 1)[q] == i as int);
                    assert(segments_in_order(tracks@[q].segments@, t, ms, ov));
                }
            }
        }
        i = i + 1;
    }
    Ok(NormalizedDraft {
        draft_id: draft.draft_id.clone(),
        profile: profile.duplicate(),
        duration,
        tracks,
        diagnostics,
    })
}

proof fn lemma_first_segment_problem_extends(t: Track, ms: Seq<Material>, j: int)
    requires
        0 <= j <= t.segments@.len(),
        first_segment_problem(t, ms, j) is Some,
    ensures
        first_segment_problem(t, ms, t.segments@.len() as int) == first_segment_problem(t, ms, j),
    decreases t.segments@.len() - j,
{
    if j < t.segments@.len() {
        assert(first_segment_problem(t, ms, j + 1) == first_segment_problem(t, ms, j));
        lemma_first_segment_problem_extends(t, ms, j + 1);
    }
}

proof fn lemma_tracks_problem_extends(ts: Seq<Track>, ms: Seq<Material>, i: int)
    requires
        0 <= i <= ts.len(),
        tracks_problem(ts, ms, i) is Some,
    ensures
        tracks_problem(ts, ms, ts.len() as int) == tracks_problem(ts, ms, i),
    decreases ts.len() - i,
{
    if i < ts.len() {
        assert(tracks_problem(ts, ms, i + 1) == tracks_problem(ts, ms, i));
        lemma_tracks_problem_extends(ts, ms, i + 1);
    }
}

proof fn lemma_track_end_bound_all(t: Track, ms: Seq<Material>, j: int)
    requires
        j == t.segments@.len(),
        first_segment_problem(t, ms, j) is None,
    ensures
        0 <= track_end(t, j) <= u64::MAX,
{
    assert forall|q: int| 0 <= q < j implies (#[trigger] t.segments@[q]).target_timerange.start + t.segments@[q].target_timerange.duration <= u64::MAX by {
        lemma_first_problem_none_prefix(t, ms, j, q);
        lemma_material_index_range(ms, t.segments@[q].material_id@);
    }
    lemma_track_end_bound(t, j);
}

/// Normalization orders each track's segments by target start, and
/// segments starting together by id.
pub proof fn law_normalized_segments_time_ordered(nt: NormalizedTrack, ts: Seq<Track>, i: int, ms: Seq<Material>, a: int, b: int)
    requires
        0 <= i < ts.len(),
        track_normalized(nt, ts, i, ms),
        0 <= a < b < nt.segments@.len(),
    ensures
        nt.segments@[a].target_timerange.start <= nt.segments@[b].target_timerange.start,
        nt.segments@[a].target_timerange.start == nt.segments@[b].target_timerange.start
            ==> !crate::text::seq_char_lt(nt.segments@[b].segment_id@, nt.segments@[a].segment_id@),
{
    let t = ts[i];
    let order = choose|order: Seq<int>| #[trigger] segments_in_order(nt.segments@, t, ms, order);
    let keys = segment_keys(t);
    let x = order[a];
    let y = order[b];
    assert(crate::order::pos_before(keys, x, y));
    assert(segment_normalized(nt.segments@[a], t, t.segments@[x], segment_material(t.segments@[x], ms)));
    assert(segment_normalized(nt.segments@[b], t, t.segments@[y], segment_material(t.segments@[y], ms)));
    assert(keys[x] == (t.segments@[x].target_timerange.start as int, t.segments@[x].segment_id@, Seq::<char>::empty()));
    assert(keys[y] == (t.segments@[y].target_timerange.start as int, t.segments@[y].segment_id@, Seq::<char>::empty()));
    crate::order::lemma_key_lt_order(keys[x], keys[y], keys[x]);
    crate::text::lemma_seq_char_lt_irreflexive(Seq::<char>::empty());
    if crate::text::seq_char_lt(t.segments@[y].segment_id@, t.segments@[x].segment_id@)
        && crate::text::seq_char_lt(t.segments@[x].segment_id@, t.segments@[y].segment_id@) {
        crate::text::lemma_seq_char_lt_asymmetric(t.segments@[x].segment_id@, t.segments@[y].segment_id@);
    }
    if t.segments@[x].segment_id@ == t.segments@[y].segment_id@ {
        crate::text::lemma_seq_char_lt_irreflexive(t.segments@[x].segment_id@);
    }
}

/// Whether a track is a visible video, text or sticker track.
pub open spec fn visible_drawn_track(t: Track) -> bool {
    (t.kind == TrackKind::Video || t.kind == TrackKind::Text || t.kind == TrackKind::Sticker) && t.visible
}

proof fn lemma_visual_rank_counts(ts: Seq<Track>, i: int)
    requires
        0 <= i <= ts.len(),
    ensures
        visual_rank(ts, i) == ts.take(i).filter(|t: Track| visible_drawn_track(t)).len(),
    decreases i,
{
    if i > 0 {
        lemma_visual_rank_counts(ts, i - 1);
        assert(ts.take(i) =~= ts.take(i - 1).push(ts[i - 1]));
        ts.take(i - 1).lemma_filter_len_push(|t: Track| visible_drawn_track(t), ts[i - 1]);
    }
}

/// Video, text and sticker tracks are drawn on the canvas: normalization
/// drops such a track when it is hidden, and numbers each one it keeps,
/// in track order, by how many visible video, text and sticker tracks come
/// before it. Audio and filter tracks are always kept and get no stack
/// index.
pub proof fn law_drawn_tracks_are_stacked(nt: NormalizedTrack, ts: Seq<Track>, i: int, ms: Seq<Material>)
    requires
        0 <= i < ts.len(),
        track_normalized(nt, ts, i, ms),
    ensures
        ({
            let t = ts[i];
            let drawn = t.kind == TrackKind::Video || t.kind == TrackKind::Text || t.kind == TrackKind::Sticker;
            let before = ts.take(i).filter(|u: Track| visible_drawn_track(u)).len();
            &&& track_included(t) <==> (!drawn || t.visible)
            &&& drawn ==> nt.stack_index == Some(before as u32)
            &&& !drawn ==> nt.stack_index is None
        }),
{
    lemma_visual_rank_counts(ts, i);
}

} // verus!
