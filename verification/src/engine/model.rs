//! The timeline values the engine reads: time ranges, speed ratios,
//! retiming and frame rates. Times are integer microseconds.
use vstd::prelude::*;

use crate::compiler::filters::{SegmentCrop, SegmentFitMode};
use crate::engine::keyframes::{Keyframe, KeyframeValue};
use crate::text::{clone_opt_string, clone_strings};

verus! {

/// A rational playback speed `numerator / denominator`.
#[derive(Debug, Clone, Copy, PartialEq, Eq, Structural)]
pub struct SpeedRatio {
    pub numerator: u32,
    pub denominator: u32,
}

impl SpeedRatio {
    /// Normal speed, 1/1.
    pub fn one() -> (r: Self)
        ensures
            r.numerator == 1 && r.denominator == 1,
    {
        SpeedRatio { numerator: 1, denominator: 1 }
    }
}

/// A speed that applies from `target_time` (relative to the segment start)
/// until the next point.
#[derive(Debug, Clone, Copy, PartialEq, Eq, Structural)]
pub struct SpeedCurvePoint {
    pub target_time: u64,
    pub speed: SpeedRatio,
}

/// How target (timeline) time maps to source (material) time.
#[derive(Debug, Clone)]
pub enum RetimeMode {
    Constant { speed: SpeedRatio },
    SpeedCurve { points: Vec<SpeedCurvePoint> },
}

/// What happens to audio when a segment is retimed.
#[derive(Debug, Clone, Copy, PartialEq, Eq, Structural)]
pub enum AudioRetimePolicy {
    FollowVideoSpeed,
    PreservePitch,
    MuteUnsupported,
}

/// Retiming of one segment.
#[derive(Debug, Clone)]
pub struct SegmentRetiming {
    pub mode: RetimeMode,
    pub audio_policy: AudioRetimePolicy,
}

/// A range of material (source) time.
#[derive(Debug, Clone, Copy, PartialEq, Eq, Structural)]
pub struct SourceTimerange {
    pub start: u64,
    pub duration: u64,
}

/// A range of timeline (target) time.
#[derive(Debug, Clone, Copy, PartialEq, Eq, Structural)]
pub struct TargetTimerange {
    pub start: u64,
    pub duration: u64,
}

/// A frame rate `numerator / denominator` frames per second.
#[derive(Debug, Clone, Copy, PartialEq, Eq, Structural)]
pub struct RationalFrameRate {
    pub numerator: u32,
    pub denominator: u32,
}

impl RationalFrameRate {
    pub fn new(numerator: u32, denominator: u32) -> (r: Self)
        ensures
            r.numerator == numerator && r.denominator == denominator,
    {
        RationalFrameRate { numerator, denominator }
    }
}

impl SourceTimerange {
    pub fn new(start: u64, duration: u64) -> (r: Self)
        ensures
            r.start == start && r.duration == duration,
    {
        SourceTimerange { start, duration }
    }
}

impl TargetTimerange {
    pub fn new(start: u64, duration: u64) -> (r: Self)
        ensures
            r.start == start && r.duration == duration,
    {
        TargetTimerange { start, duration }
    }
}


/// Two retimings with the same mode, speeds and audio policy.
pub open spec fn same_retiming(a: SegmentRetiming, b: SegmentRetiming) -> bool {
    &&& a.audio_policy == b.audio_policy
    &&& match (a.mode, b.mode) {
        (RetimeMode::Constant { speed: x }, RetimeMode::Constant { speed: y }) => x == y,
        (RetimeMode::SpeedCurve { points: x }, RetimeMode::SpeedCurve { points: y }) => x@ == y@,
        _ => false,
    }
}

impl SegmentRetiming {
    /// An identical copy.
    pub fn duplicate(&self) -> (r: Self)
        ensures
            same_retiming(r, *self),
    {
        let mode = match &self.mode {
            RetimeMode::Constant { speed } => RetimeMode::Constant { speed: *speed },
            RetimeMode::SpeedCurve { points } => {
                let mut copy: Vec<SpeedCurvePoint> = Vec::new();
                let mut i: usize = 0;
                while i < points.len()
                    invariant
                        i <= points@.len(),
                        copy@ == points@.subrange(0, i as int),
                    decreases points@.len() - i,
                {
                    copy.push(points[i]);
                    i = i + 1;
                    assert(copy@ =~= points@.subrange(0, i as int));
                }
                assert(copy@ =~= points@);
                RetimeMode::SpeedCurve { points: copy }
            },
        };
        SegmentRetiming { mode, audio_policy: self.audio_policy }
    }
}

/// Kinds of timeline tracks.
#[derive(Debug, Clone, Copy, PartialEq, Eq, Structural)]
pub enum TrackKind {
    Video,
    Audio,
    Text,
    Sticker,
    Filter,
}

/// Kinds of media material.
#[derive(Debug, Clone, Copy, PartialEq, Eq, Structural)]
pub enum MaterialKind {
    Video,
    Audio,
    Image,
    Text,
    Sticker,
}

/// Availability of a material's file.
#[derive(Debug, Clone, Copy, PartialEq, Eq, Structural)]
pub enum MaterialStatus {
    Available,
    Missing,
    ProbeFailed,
}

/// Horizontal alignment of text.
#[derive(Debug, Clone, Copy, PartialEq, Eq, Structural)]
pub enum TextAlignment {
    Left,
    Center,
    Right,
}

/// Whether long lines are wrapped automatically.
#[derive(Debug, Clone, Copy, PartialEq, Eq, Structural)]
pub enum TextWrapping {
    Auto,
    Manual,
}

/// Where a text segment came from.
#[derive(Debug, Clone, Copy, PartialEq, Eq, Structural)]
pub enum TextSegmentSource {
    Text,
    Subtitle,
}

/// Text outline.
#[derive(Debug, Clone, PartialEq, Eq)]
pub struct TextStroke {
    pub color: String,
    pub width: u32,
}

/// Text drop shadow.
#[derive(Debug, Clone, PartialEq, Eq)]
pub struct TextShadow {
    pub color: String,
    pub offset_x: i32,
    pub offset_y: i32,
    pub blur: u32,
}

/// Box behind the text.
#[derive(Debug, Clone, PartialEq, Eq)]
pub struct TextBackground {
    pub color: String,
}

/// Requested font: a family name and optionally a registered font.
#[derive(Debug, Clone, PartialEq, Eq)]
pub struct TextFont {
    pub family: String,
    pub font_ref: Option<String>,
}

/// Styling of a text segment.
#[derive(Debug, Clone, PartialEq, Eq)]
pub struct TextStyle {
    pub font: TextFont,
    pub font_size: u32,
    pub color: String,
    pub alignment: TextAlignment,
    pub line_height_millis: u32,
    pub letter_spacing_millis: u32,
    pub stroke: Option<TextStroke>,
    pub shadow: Option<TextShadow>,
    pub background: Option<TextBackground>,
}

/// Size of the text box, in thousandths of the canvas.
#[derive(Debug, Clone, Copy, PartialEq, Eq, Structural)]
pub struct TextBox {
    pub width_millis: u32,
    pub height_millis: u32,
}

/// Region the text is laid out in, in thousandths of the canvas.
#[derive(Debug, Clone, Copy, PartialEq, Eq, Structural)]
pub struct TextLayoutRegion {
    pub x_millis: u32,
    pub y_millis: u32,
    pub width_millis: u32,
    pub height_millis: u32,
}

/// A text bubble or text effect: one the renderer knows, or one it does not.
#[derive(Debug, Clone, PartialEq, Eq)]
pub enum TextResourceRef {
    Supported { name: String },
    Unsupported { name: String },
}

/// The text of a text segment and how it is styled and placed.
#[derive(Debug, Clone, PartialEq, Eq)]
pub struct TextSegment {
    pub content: String,
    pub source: TextSegmentSource,
    pub style: TextStyle,
    pub text_box: TextBox,
    pub layout_region: TextLayoutRegion,
    pub wrapping: TextWrapping,
    pub bubble: Option<TextResourceRef>,
    pub effect: Option<TextResourceRef>,
}

/// Placement of a visual segment on the canvas.
#[derive(Debug, Clone, Copy, PartialEq, Eq, Structural)]
pub struct VisualTransform {
    pub position_x: i32,
    pub position_y: i32,
    pub scale_x_millis: u32,
    pub scale_y_millis: u32,
    pub rotation_degrees: i32,
    pub opacity_millis: u32,
    pub crop: SegmentCrop,
}

/// How the area around a segment's picture is filled.
#[derive(Debug, Clone, PartialEq, Eq)]
pub enum BackgroundFilling {
    NoFilling,
    Black,
    SolidColor { color: String },
    Blur,
    Image { material_id: Option<String> },
}

/// A blend mode or mask defined by an outside provider.
#[derive(Debug, Clone, PartialEq, Eq)]
pub struct ExternalEffectRef {
    pub provider: String,
    pub effect_id: String,
}

/// Visual intent of a segment.
#[derive(Debug, Clone, PartialEq, Eq)]
pub struct SegmentVisual {
    pub visible: bool,
    pub transform: VisualTransform,
    pub fit_mode: SegmentFitMode,
    pub background_filling: BackgroundFilling,
    pub blend_reference: Option<ExternalEffectRef>,
    pub mask_reference: Option<ExternalEffectRef>,
}

fn clone_stroke(o: &Option<TextStroke>) -> (r: Option<TextStroke>)
    ensures
        r == *o,
{
    match o {
        Some(s) => Some(TextStroke { color: s.color.clone(), width: s.width }),
        None => None,
    }
}

fn clone_shadow(o: &Option<TextShadow>) -> (r: Option<TextShadow>)
    ensures
        r == *o,
{
    match o {
        Some(s) => Some(TextShadow { color: s.color.clone(), offset_x: s.offset_x, offset_y: s.offset_y, blur: s.blur }),
        None => None,
    }
}

fn clone_background(o: &Option<TextBackground>) -> (r: Option<TextBackground>)
    ensures
        r == *o,
{
    match o {
        Some(s) => Some(TextBackground { color: s.color.clone() }),
        None => None,
    }
}

fn clone_resource(o: &Option<TextResourceRef>) -> (r: Option<TextResourceRef>)
    ensures
        r == *o,
{
    match o {
        Some(TextResourceRef::Supported { name }) => Some(TextResourceRef::Supported { name: name.clone() }),
        Some(TextResourceRef::Unsupported { name }) => Some(TextResourceRef::Unsupported { name: name.clone() }),
        None => None,
    }
}

fn clone_effect_ref(o: &Option<ExternalEffectRef>) -> (r: Option<ExternalEffectRef>)
    ensures
        r == *o,
{
    match o {
        Some(e) => Some(ExternalEffectRef { provider: e.provider.clone(), effect_id: e.effect_id.clone() }),
        None => None,
    }
}

impl TextStyle {
    /// An identical copy.
    pub fn duplicate(&self) -> (r: Self)
        ensures
            r == *self,
    {
        TextStyle {
            font: TextFont { family: self.font.family.clone(), font_ref: clone_opt_string(&self.font.font_ref) },
            font_size: self.font_size,
            color: self.color.clone(),
            alignment: self.alignment,
            line_height_millis: self.line_height_millis,
            letter_spacing_millis: self.letter_spacing_millis,
            stroke: clone_stroke(&self.stroke),
            shadow: clone_shadow(&self.shadow),
            background: clone_background(&self.background),
        }
    }
}

impl TextSegment {
    /// An identical copy.
    pub fn duplicate(&self) -> (r: Self)
        ensures
            r == *self,
    {
        TextSegment {
            content: self.content.clone(),
            source: self.source,
            style: self.style.duplicate(),
            text_box: self.text_box,
            layout_region: self.layout_region,
            wrapping: self.wrapping,
            bubble: clone_resource(&self.bubble),
            effect: clone_resource(&self.effect),
        }
    }
}

impl SegmentVisual {
    /// An identical copy.
    pub fn duplicate(&self) -> (r: Self)
        ensures
            r == *self,
    {
        let background_filling = match &self.background_filling {
            BackgroundFilling::NoFilling => BackgroundFilling::NoFilling,
            BackgroundFilling::Black => BackgroundFilling::Black,
            BackgroundFilling::SolidColor { color } => BackgroundFilling::SolidColor { color: color.clone() },
            BackgroundFilling::Blur => BackgroundFilling::Blur,
            BackgroundFilling::Image { material_id } => BackgroundFilling::Image { material_id: clone_opt_string(material_id) },
        };
        SegmentVisual {
            visible: self.visible,
            transform: self.transform,
            fit_mode: self.fit_mode,
            background_filling,
            blend_reference: clone_effect_ref(&self.blend_reference),
            mask_reference: clone_effect_ref(&self.mask_reference),
        }
    }
}

/// A copy of a keyframe list.
pub fn clone_keyframes(v: &Vec<Keyframe>) -> (r: Vec<Keyframe>)
    ensures
        r@ == v@,
{
    let mut r: Vec<Keyframe> = Vec::new();
    let mut i: usize = 0;
    while i < v.len()
        invariant
            i <= v@.len(),
            r@ == v@.subrange(0, i as int),
        decreases v@.len() - i,
    {
        let k = &v[i];
        let value = match &k.value {
            KeyframeValue::Int { value } => KeyframeValue::Int { value: *value },
            KeyframeValue::Uint { value } => KeyframeValue::Uint { value: *value },
            KeyframeValue::Color { value } => KeyframeValue::Color { value: value.clone() },
        };
        r.push(Keyframe { property: k.property, at: k.at, value, interpolation: k.interpolation, easing: k.easing });
        i = i + 1;
        assert(r@ =~= v@.subrange(0, i as int));
    }
    assert(v@.subrange(0, v@.len() as int) =~= v@);
    r
}

/// A media file the draft refers to.
#[derive(Debug, Clone)]
pub struct Material {
    pub material_id: String,
    pub kind: MaterialKind,
    pub uri: String,
    pub display_name: String,
    pub status: MaterialStatus,
    pub duration: Option<u64>,
    pub width: Option<u32>,
    pub height: Option<u32>,
    pub has_video: bool,
    pub has_audio: bool,
}

/// A placement of material on a track.
#[derive(Debug, Clone)]
pub struct Segment {
    pub segment_id: String,
    pub material_id: String,
    pub source_timerange: SourceTimerange,
    pub target_timerange: TargetTimerange,
    pub retiming: SegmentRetiming,
    pub keyframes: Vec<Keyframe>,
    pub text: Option<TextSegment>,
    pub volume_level_millis: u32,
    pub visual: SegmentVisual,
}

/// A timeline track.
#[derive(Debug, Clone)]
pub struct Track {
    pub track_id: String,
    pub kind: TrackKind,
    pub name: String,
    pub muted: bool,
    pub visible: bool,
    pub segments: Vec<Segment>,
}

/// The canvas colour behind all layers.
#[derive(Debug, Clone, PartialEq, Eq)]
pub enum CanvasBackground {
    Black,
    SolidColor { color: String },
}

/// Output canvas of a draft.
#[derive(Debug, Clone)]
pub struct CanvasConfig {
    pub frame_rate: RationalFrameRate,
    pub width: u32,
    pub height: u32,
    pub background: CanvasBackground,
}

impl CanvasBackground {
    /// An identical copy.
    pub fn duplicate(&self) -> (r: Self)
        ensures
            r == *self,
    {
        match self {
            CanvasBackground::Black => CanvasBackground::Black,
            CanvasBackground::SolidColor { color } => CanvasBackground::SolidColor { color: color.clone() },
        }
    }
}

/// An editing draft: its name, canvas, tracks and the materials they use.
#[derive(Debug, Clone)]
pub struct Draft {
    pub draft_id: String,
    pub name: String,
    pub canvas_config: CanvasConfig,
    pub tracks: Vec<Track>,
    pub materials: Vec<Material>,
}

/// Two segments with the same content.
pub open spec fn same_segment(a: Segment, b: Segment) -> bool {
    &&& a.segment_id == b.segment_id
    &&& a.material_id == b.material_id
    &&& a.source_timerange == b.source_timerange
    &&& a.target_timerange == b.target_timerange
    &&& same_retiming(a.retiming, b.retiming)
    &&& a.keyframes@ == b.keyframes@
    &&& a.text == b.text
    &&& a.volume_level_millis == b.volume_level_millis
    &&& a.visual == b.visual
}

/// Two tracks with the same content.
pub open spec fn same_track(a: Track, b: Track) -> bool {
    &&& a.track_id == b.track_id
    &&& a.kind == b.kind
    &&& a.name == b.name
    &&& a.muted == b.muted
    &&& a.visible == b.visible
    &&& a.segments@.len() == b.segments@.len()
    &&& forall|k: int| 0 <= k < a.segments@.len() ==> same_segment(#[trigger] a.segments@[k], b.segments@[k])
}

/// Two drafts with the same content.
pub open spec fn same_draft(a: Draft, b: Draft) -> bool {
    &&& a.draft_id == b.draft_id
    &&& a.name@ == b.name@
    &&& a.canvas_config.frame_rate == b.canvas_config.frame_rate
    &&& a.canvas_config.width == b.canvas_config.width
    &&& a.canvas_config.height == b.canvas_config.height
    &&& a.canvas_config.background == b.canvas_config.background
    &&& a.tracks@.len() == b.tracks@.len()
    &&& forall|k: int| 0 <= k < a.tracks@.len() ==> same_track(#[trigger] a.tracks@[k], b.tracks@[k])
    &&& a.materials@ == b.materials@
}

impl Segment {
    /// A copy with the same content.
    pub fn duplicate(&self) -> (r: Self)
        ensures
            same_segment(r, *self),
    {
        Segment {
            segment_id: self.segment_id.clone(),
            material_id: self.material_id.clone(),
            source_timerange: self.source_timerange,
            target_timerange: self.target_timerange,
            retiming: self.retiming.duplicate(),
            keyframes: clone_keyframes(&self.keyframes),
            text: match &self.text {
                Some(t) => Some(t.duplicate()),
                None => None,
            },
            volume_level_millis: self.volume_level_millis,
            visual: self.visual.duplicate(),
        }
    }
}

impl Track {
    /// A copy with the same content.
    pub fn duplicate(&self) -> (r: Self)
        ensures
            same_track(r, *self),
    {
        let mut segments: Vec<Segment> = Vec::new();
        let mut i: usize = 0;
        while i < self.segments.len()
            invariant
                i <= self.segments@.len(),
                segments@.len() == i,
                forall|k: int| 0 <= k < i ==> same_segment(#[trigger] segments@[k], self.segments@[k]),
            decreases self.segments@.len() - i,
        {
            let ghost old_segments = segments@;
            segments.push(self.segments[i].duplicate());
            proof {
                assert forall|k: int| 0 <= k < i + 1 implies same_segment(#[trigger] segments@[k], self.segments@[k]) by {
                    if k < i {
                        assert(segments@[k] == old_segments[k]);
                    }
                }
            }
            i = i + 1;
        }
        Track {
            track_id: self.track_id.clone(),
            kind: self.kind,
            name: self.name.clone(),
            muted: self.muted,
            visible: self.visible,
            segments,
        }
    }
}

impl Material {
    /// An identical copy.
    pub fn duplicate(&self) -> (r: Self)
        ensures
            r == *self,
    {
        Material {
            material_id: self.material_id.clone(),
            kind: self.kind,
            uri: self.uri.clone(),
            display_name: self.display_name.clone(),
            status: self.status,
            duration: self.duration,
            width: self.width,
            height: self.height,
            has_video: self.has_video,
            has_audio: self.has_audio,
        }
    }
}

impl Draft {
    /// A copy with the same content.
    pub fn duplicate(&self) -> (r: Self)
        ensures
            same_draft(r, *self),
    {
        let mut tracks: Vec<Track> = Vec::new();
        let mut i: usize = 0;
        while i < self.tracks.len()
            invariant
                i <= self.tracks@.len(),
                tracks@.len() == i,
                forall|k: int| 0 <= k < i ==> same_track(#[trigger] tracks@[k], self.tracks@[k]),
            decreases self.tracks@.len() - i,
        {
            let ghost old_tracks = tracks@;
            tracks.push(self.tracks[i].duplicate());
            proof {
                assert forall|k: int| 0 <= k < i + 1 implies same_track(#[trigger] tracks@[k], self.tracks@[k]) by {
                    if k < i {
                        assert(tracks@[k] == old_tracks[k]);
                    }
                }
            }
            i = i + 1;
        }
        let mut materials: Vec<Material> = Vec::new();
        let mut j: usize = 0;
        while j < self.materials.len()
            invariant
                j <= self.materials@.len(),
                materials@ == self.materials@.subrange(0, j as int),
            decreases self.materials@.len() - j,
        {
            materials.push(self.materials[j].duplicate());
            j = j + 1;
            assert(materials@ =~= self.materials@.subrange(0, j as int));
        }
        assert(self.materials@.subrange(0, self.materials@.len() as int) =~= self.materials@);
        Draft {
            draft_id: self.draft_id.clone(),
            name: self.name.clone(),
            canvas_config: CanvasConfig {
                frame_rate: self.canvas_config.frame_rate,
                width: self.canvas_config.width,
                height: self.canvas_config.height,
                background: self.canvas_config.background.duplicate(),
            },
            tracks,
            materials,
        }
    }
}

} // verus!
