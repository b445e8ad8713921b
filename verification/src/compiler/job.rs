//! The FFmpeg job: compile context, encoder capabilities, output profiles
//! and the command line of a render.
use vstd::prelude::*;

use crate::engine::model::{MaterialKind, RationalFrameRate, TargetTimerange};
use crate::compiler::ass::RenderTextOverlay;
use crate::compiler::filters::{RenderAudioMix, RenderTransitionIntent};
use crate::compiler::visual::RenderVideoLayer;
use crate::text::{
    append_str, append_string, chars_of, clone_opt_string, clone_strings, decimal, lit, push_char,
    string_from_chars, u64_to_decimal, u64_to_padded_decimal, zero_padded,
};

verus! {

/// What the renderer can do with text.
#[derive(Debug, Clone)]
pub struct TextRenderCapability {
    pub supports_ass_filter: bool,
    pub supports_subtitles_filter: bool,
    pub env_text_font_path: Option<String>,
    pub available_font_paths: Vec<String>,
    pub bundled_font_ref: Option<String>,
    pub bundled_font_family: Option<String>,
    pub bundled_font_path: Option<String>,
    pub bundled_font_license: Option<String>,
}

impl Default for TextRenderCapability {
    /// Both subtitle filters, no fonts known.
    fn default() -> (r: Self)
        ensures
            r.supports_ass_filter && r.supports_subtitles_filter,
            r.env_text_font_path is None,
            r.available_font_paths@.len() == 0,
            r.bundled_font_ref is None && r.bundled_font_family is None,
            r.bundled_font_path is None && r.bundled_font_license is None,
    {
        TextRenderCapability {
            supports_ass_filter: true,
            supports_subtitles_filter: true,
            env_text_font_path: None,
            available_font_paths: Vec::new(),
            bundled_font_ref: None,
            bundled_font_family: None,
            bundled_font_path: None,
            bundled_font_license: None,
        }
    }
}

impl TextRenderCapability {
    /// An identical copy.
    pub fn duplicate(&self) -> (r: Self)
        ensures
            r.supports_ass_filter == self.supports_ass_filter,
            r.supports_subtitles_filter == self.supports_subtitles_filter,
            r.env_text_font_path == self.env_text_font_path,
            r.available_font_paths@ == self.available_font_paths@,
            r.bundled_font_ref == self.bundled_font_ref,
            r.bundled_font_family == self.bundled_font_family,
            r.bundled_font_path == self.bundled_font_path,
            r.bundled_font_license == self.bundled_font_license,
    {
        TextRenderCapability {
            supports_ass_filter: self.supports_ass_filter,
            supports_subtitles_filter: self.supports_subtitles_filter,
            env_text_font_path: clone_opt_string(&self.env_text_font_path),
            available_font_paths: clone_strings(&self.available_font_paths),
            bundled_font_ref: clone_opt_string(&self.bundled_font_ref),
            bundled_font_family: clone_opt_string(&self.bundled_font_family),
            bundled_font_path: clone_opt_string(&self.bundled_font_path),
            bundled_font_license: clone_opt_string(&self.bundled_font_license),
        }
    }
}

/// Encoders and text support of the FFmpeg runtime.
#[derive(Debug, Clone)]
pub struct CompilerCapabilities {
    pub supports_h264_encoder: bool,
    pub supports_aac_encoder: bool,
    pub text: TextRenderCapability,
}

impl Default for CompilerCapabilities {
    /// H.264 and AAC available, default text support.
    fn default() -> (r: Self)
        ensures
            r.supports_h264_encoder && r.supports_aac_encoder,
            r.text.supports_ass_filter && r.text.supports_subtitles_filter,
            r.text.env_text_font_path is None,
            r.text.available_font_paths@.len() == 0,
            r.text.bundled_font_ref is None && r.text.bundled_font_family is None,
            r.text.bundled_font_path is None && r.text.bundled_font_license is None,
    {
        CompilerCapabilities {
            supports_h264_encoder: true,
            supports_aac_encoder: true,
            text: TextRenderCapability::default(),
        }
    }
}

/// The bundled font as the runtime registers it.
#[derive(Debug, Clone)]
pub struct BundledFontAsset {
    pub font_ref: String,
    pub family: String,
    pub relative_path: String,
    pub serif_relative_path: String,
    pub license_spdx: String,
}

impl CompilerCapabilities {
    /// Everything available, with the bundled fonts and a few system fonts.
    pub fn all_available_for_tests(bundled: &BundledFontAsset) -> (r: Self)
        ensures
            r.supports_h264_encoder && r.supports_aac_encoder,
            r.text.supports_ass_filter && r.text.supports_subtitles_filter,
            r.text.env_text_font_path matches Some(p) && p@ == "/fonts/PingFang.ttc"@,
            crate::text::strings_view(r.text.available_font_paths@) == seq![
                bundled.relative_path@,
                bundled.serif_relative_path@,
                "/fonts/PingFang.ttc"@,
                "/System/Library/Fonts/PingFang.ttc"@,
                "/usr/share/fonts/truetype/dejavu/DejaVuSans.ttf"@,
            ],
            r.text.bundled_font_ref == Some(bundled.font_ref),
            r.text.bundled_font_family == Some(bundled.family),
            r.text.bundled_font_path == Some(bundled.relative_path),
            r.text.bundled_font_license == Some(bundled.license_spdx),
    {
        let mut paths: Vec<String> = Vec::new();
        paths.push(bundled.relative_path.clone());
        paths.push(bundled.serif_relative_path.clone());
        paths.push(lit("/fonts/PingFang.ttc"));
        paths.push(lit("/System/Library/Fonts/PingFang.ttc"));
        paths.push(lit("/usr/share/fonts/truetype/dejavu/DejaVuSans.ttf"));
        let r = CompilerCapabilities {
            supports_h264_encoder: true,
            supports_aac_encoder: true,
            text: TextRenderCapability {
                supports_ass_filter: true,
                supports_subtitles_filter: true,
                env_text_font_path: Some(lit("/fonts/PingFang.ttc")),
                available_font_paths: paths,
                bundled_font_ref: Some(bundled.font_ref.clone()),
                bundled_font_family: Some(bundled.family.clone()),
                bundled_font_path: Some(bundled.relative_path.clone()),
                bundled_font_license: Some(bundled.license_spdx.clone()),
            },
        };
        proof {
            assert(crate::text::strings_view(r.text.available_font_paths@) =~= seq![
                bundled.relative_path@,
                bundled.serif_relative_path@,
                "/fonts/PingFang.ttc"@,
                "/System/Library/Fonts/PingFang.ttc"@,
                "/usr/share/fonts/truetype/dejavu/DejaVuSans.ttf"@,
            ]);
        }
        r
    }

    /// The same capabilities with other text support.
    pub fn with_text(self, text: TextRenderCapability) -> (r: Self)
        ensures
            r.supports_h264_encoder == self.supports_h264_encoder,
            r.supports_aac_encoder == self.supports_aac_encoder,
            r.text == text,
    {
        CompilerCapabilities { text, ..self }
    }

    /// The same capabilities with or without the H.264 encoder.
    pub fn with_h264_encoder(self, supported: bool) -> (r: Self)
        ensures
            r.supports_h264_encoder == supported,
            r.supports_aac_encoder == self.supports_aac_encoder,
            r.text == self.text,
    {
        CompilerCapabilities { supports_h264_encoder: supported, ..self }
    }
}

/// `file` resolved against the directory `dir` the way a path is pushed
/// onto a Unix path: an absolute `file` replaces `dir`; otherwise a `/` is
/// put between them unless `dir` is empty or already ends with one.
pub open spec fn path_join(dir: Seq<char>, file: Seq<char>) -> Seq<char> {
    if file.len() > 0 && file[0] == '/' {
        file
    } else if dir.len() == 0 || dir.last() == '/' {
        dir + file
    } else {
        dir + seq!['/'] + file
    }
}

/// Joins a file name onto a directory path.
pub fn join_path(dir: &str, file: &str) -> (r: String)
    ensures
        r@ == path_join(dir@, file@),
{
    let f = chars_of(file);
    if f.len() > 0 && f[0] == '/' {
        return lit(file);
    }
    let d = chars_of(dir);
    let mut r = lit(dir);
    if d.len() > 0 && d[d.len() - 1] != '/' {
        push_char(&mut r, '/');
    }
    append_str(&mut r, file);
    r
}

/// Where a job writes its output and its side files.
#[derive(Debug, Clone)]
pub struct CompileContext {
    pub output_path: String,
    pub artifact_dir: String,
    pub capabilities: CompilerCapabilities,
}

impl CompileContext {
    /// A context with default capabilities.
    pub fn new(output_path: &str, artifact_dir: &str) -> (c: Self)
        ensures
            c.output_path@ == output_path@,
            c.artifact_dir@ == artifact_dir@,
            c.capabilities.supports_h264_encoder && c.capabilities.supports_aac_encoder,
            c.capabilities.text.supports_ass_filter && c.capabilities.text.supports_subtitles_filter,
            c.capabilities.text.env_text_font_path is None,
            c.capabilities.text.available_font_paths@.len() == 0,
            c.capabilities.text.bundled_font_ref is None && c.capabilities.text.bundled_font_path is None,
    {
        CompileContext {
            output_path: lit(output_path),
            artifact_dir: lit(artifact_dir),
            capabilities: CompilerCapabilities::default(),
        }
    }

    /// The same context with other capabilities.
    pub fn with_capabilities(self, capabilities: CompilerCapabilities) -> (c: Self)
        ensures
            c.output_path == self.output_path,
            c.artifact_dir == self.artifact_dir,
            c.capabilities == capabilities,
    {
        CompileContext { capabilities, ..self }
    }

    /// The same context writing to another output path.
    pub fn with_output_path(self, output_path: &str) -> (c: Self)
        ensures
            c.output_path@ == output_path@,
            c.artifact_dir == self.artifact_dir,
            c.capabilities == self.capabilities,
    {
        CompileContext { output_path: lit(output_path), ..self }
    }

    /// The path of a side file in the artifact directory.
    pub fn artifact_path(&self, file_name: &str) -> (r: String)
        ensures
            r@ == path_join(self.artifact_dir@, file_name@),
    {
        join_path(self.artifact_dir.as_str(), file_name)
    }
}

/// Kinds of compile failures.
#[derive(Debug, Clone, Copy, PartialEq, Eq, Structural)]
pub enum FfmpegCompileErrorKind {
    MissingOutputPath,
    UnsupportedEncoder,
    MissingTextFilterSupport,
    UnsupportedTextResource,
    UnsupportedAudioAutomation,
    MissingTextFont,
    MissingInputMaterial,
}

/// A compile failure with what to do about it.
#[derive(Debug, Clone)]
pub struct FfmpegCompileError {
    pub kind: FfmpegCompileErrorKind,
    pub message: String,
    pub remediation: String,
    pub material_id: Option<String>,
}

impl FfmpegCompileError {
    /// An error not tied to a material.
    pub fn new(kind: FfmpegCompileErrorKind, message: String, remediation: String) -> (e: Self)
        ensures
            e.kind == kind,
            e.message == message,
            e.remediation == remediation,
            e.material_id is None,
    {
        FfmpegCompileError { kind, message, remediation, material_id: None }
    }

    /// The same error tied to a material.
    pub fn with_material_id(self, material_id: String) -> (e: Self)
        ensures
            e.kind == self.kind,
            e.message == self.message,
            e.remediation == self.remediation,
            e.material_id == Some(material_id),
    {
        FfmpegCompileError { material_id: Some(material_id), ..self }
    }
}

/// Kind of side file a job writes.
#[derive(Debug, Clone, Copy, PartialEq, Eq, Structural)]
pub enum FfmpegSidecarKind {
    FilterScript,
    AssSubtitle,
}

/// What a job produces.
#[derive(Debug, Clone, Copy, PartialEq, Eq, Structural)]
pub enum FfmpegOutputKind {
    PreviewFramePng,
    PreviewFrameJpeg,
    PreviewSegmentMp4,
    ExportMp4,
}

/// Output size in pixels.
#[derive(Debug, Clone, Copy, PartialEq, Eq, Structural)]
pub struct OutputDimensionsSnapshot {
    pub width: u32,
    pub height: u32,
}

/// Image format of a preview frame.
#[derive(Debug, Clone, Copy, PartialEq, Eq, Structural)]
pub enum PreviewFrameFormat {
    Png,
    Jpeg,
}

/// Output container.
#[derive(Debug, Clone, Copy, PartialEq, Eq, Structural)]
pub enum RenderContainer {
    Mp4,
}

/// Output video codec.
#[derive(Debug, Clone, Copy, PartialEq, Eq, Structural)]
pub enum RenderVideoCodec {
    H264,
}

/// Output audio codec.
#[derive(Debug, Clone, Copy, PartialEq, Eq, Structural)]
pub enum RenderAudioCodec {
    Aac,
}

/// Encoder settings of an MP4 export.
#[derive(Debug, Clone, Copy, PartialEq, Eq, Structural)]
pub struct ExportMp4Preset {
    pub container: RenderContainer,
    pub video_codec: RenderVideoCodec,
    pub audio_codec: RenderAudioCodec,
    pub crf: u8,
    pub audio_bitrate_kbps: u32,
}

/// What a render produces and over which stretch of the timeline.
#[derive(Debug, Clone)]
pub enum RenderOutputProfile {
    PreviewFrame {
        profile_id: String,
        format: PreviewFrameFormat,
        dimensions: OutputDimensionsSnapshot,
        frame_rate: RationalFrameRate,
        target_timerange: TargetTimerange,
    },
    PreviewSegment {
        profile_id: String,
        dimensions: OutputDimensionsSnapshot,
        frame_rate: RationalFrameRate,
        target_timerange: TargetTimerange,
        container: RenderContainer,
        video_codec: RenderVideoCodec,
        audio_codec: RenderAudioCodec,
    },
    ExportMp4 {
        profile_id: String,
        dimensions: OutputDimensionsSnapshot,
        frame_rate: RationalFrameRate,
        target_timerange: TargetTimerange,
        preset: ExportMp4Preset,
    },
}

/// Encoder settings of a job.
#[derive(Debug, Clone)]
pub struct EncodeSettings {
    pub container: Option<String>,
    pub video_codec: Option<String>,
    pub audio_codec: Option<String>,
    pub crf: Option<u8>,
    pub audio_bitrate_kbps: Option<u32>,
    pub pixel_format: Option<String>,
    pub dimensions: OutputDimensionsSnapshot,
    pub frame_rate: RationalFrameRate,
}

/// What the produced file is checked against.
#[derive(Debug, Clone, Copy, PartialEq, Eq, Structural)]
pub struct OutputValidationExpectation {
    pub must_exist: bool,
    pub must_be_non_empty: bool,
    pub expected_duration: u64,
    pub expected_frame_rate: RationalFrameRate,
    pub expected_width: u32,
    pub expected_height: u32,
    pub expect_audio_stream: bool,
}

/// A material given to FFmpeg as an input.
#[derive(Debug, Clone)]
pub struct FfmpegInput {
    pub input_index: u32,
    pub material_id: String,
    pub material_kind: MaterialKind,
    pub uri: String,
    pub ffmpeg_path: String,
    pub has_video: bool,
    pub has_audio: bool,
}

/// A side file a job writes before running FFmpeg.
#[derive(Debug, Clone)]
pub struct FfmpegSidecar {
    pub sidecar_id: String,
    pub kind: FfmpegSidecarKind,
    pub segment_id: Option<String>,
    pub path: String,
    pub contents: String,
}

/// A material of the render graph.
#[derive(Debug, Clone)]
pub struct RenderMaterial {
    pub material_id: String,
    pub kind: MaterialKind,
    pub uri: String,
    pub has_video: bool,
    pub has_audio: bool,
    pub width: Option<u32>,
    pub height: Option<u32>,
}

/// `value` microseconds as seconds with six decimals.
pub open spec fn seconds_text(value: u64) -> Seq<char> {
    decimal((value / 1_000_000) as nat) + seq!['.'] + zero_padded((value % 1_000_000) as nat, 6)
}

/// Microseconds as seconds with six decimals (`1.500000`).
pub fn format_seconds(value: u64) -> (r: String)
    ensures
        r@ == seconds_text(value),
{
    let mut r = u64_to_decimal(value / 1_000_000);
    push_char(&mut r, '.');
    let micros = u64_to_padded_decimal(value % 1_000_000, 6);
    append_string(&mut r, &micros);
    r
}

/// An ASCII letter or digit.
pub open spec fn is_ascii_alphanumeric(c: char) -> bool {
    ('a' <= c && c <= 'z') || ('A' <= c && c <= 'Z') || ('0' <= c && c <= '9')
}

/// A character kept in an id; every other becomes `-`.
pub open spec fn sanitized_char(c: char) -> char {
    if is_ascii_alphanumeric(c) || c == '-' || c == '_' { c } else { '-' }
}

/// An id with every character but ASCII letters, digits, `-` and `_`
/// replaced by `-`.
pub open spec fn sanitized(s: Seq<char>) -> Seq<char> {
    s.map_values(|c: char| sanitized_char(c))
}

/// Keeps ASCII letters, digits, `-` and `_`; replaces everything else by `-`.
pub fn sanitize_id(value: &str) -> (r: String)
    ensures
        r@ == sanitized(value@),
{
    let cs = chars_of(value);
    let mut out: Vec<char> = Vec::new();
    let mut i: usize = 0;
    while i < cs.len()
        invariant
            cs@ == value@,
            i <= cs@.len(),
            out@ == sanitized(cs@.subrange(0, i as int)),
        decreases cs@.len() - i,
    {
        let c = cs[i];
        let keep = ('a' <= c && c <= 'z') || ('A' <= c && c <= 'Z') || ('0' <= c && c <= '9') || c == '-' || c == '_';
        out.push(if keep { c } else { '-' });
        i = i + 1;
        assert(out@ =~= sanitized(cs@.subrange(0, i as int)));
    }
    assert(cs@.subrange(0, cs@.len() as int) =~= cs@);
    string_from_chars(out.as_slice())
}

/// The id of a job: draft id and profile id joined by `-`, sanitized.
pub open spec fn job_id_text(draft_id: Seq<char>, profile_id: Seq<char>) -> Seq<char> {
    sanitized(draft_id + seq!['-'] + profile_id)
}

/// A stable job id from the draft and profile ids.
pub fn stable_job_id(draft_id: &str, profile_id: &str) -> (r: String)
    ensures
        r@ == job_id_text(draft_id@, profile_id@),
{
    let mut joined = lit(draft_id);
    push_char(&mut joined, '-');
    append_str(&mut joined, profile_id);
    sanitize_id(joined.as_str())
}

/// The file path FFmpeg reads for a material URI: `file://` stripped.
pub open spec fn ffmpeg_path_text(uri: Seq<char>) -> Seq<char> {
    if uri.len() >= 7 && uri.subrange(0, 7) == "file://"@ {
        uri.subrange(7, uri.len() as int)
    } else {
        uri
    }
}

/// Strips a `file://` scheme from a material URI.
pub fn ffmpeg_path_from_uri(uri: &str) -> (r: String)
    ensures
        r@ == ffmpeg_path_text(uri@),
{
    let cs = chars_of(uri);
    proof {
        reveal_strlit("file://");
    }
    if cs.len() >= 7 && cs[0] == 'f' && cs[1] == 'i' && cs[2] == 'l' && cs[3] == 'e' && cs[4] == ':'
        && cs[5] == '/' && cs[6] == '/' {
        let mut rest: Vec<char> = Vec::new();
        let mut i: usize = 7;
        while i < cs.len()
            invariant
                cs@ == uri@,
                7 <= i <= cs@.len(),
                rest@ == cs@.subrange(7, i as int),
            decreases cs@.len() - i,
        {
            rest.push(cs[i]);
            i = i + 1;
            assert(rest@ =~= cs@.subrange(7, i as int));
        }
        assert(cs@.subrange(0, 7) =~= "file://"@);
        string_from_chars(rest.as_slice())
    } else {
        proof {
            if cs@.len() >= 7 && cs@.subrange(0, 7) == "file://"@ {
                assert(cs@.subrange(0, 7)[0] == 'f');
                assert(cs@.subrange(0, 7)[1] == 'i');
                assert(cs@.subrange(0, 7)[2] == 'l');
                assert(cs@.subrange(0, 7)[3] == 'e');
                assert(cs@.subrange(0, 7)[4] == ':');
                assert(cs@.subrange(0, 7)[5] == '/');
                assert(cs@.subrange(0, 7)[6] == '/');
            }
        }
        lit(uri)
    }
}

/// Kind of output a profile asks for.
pub open spec fn spec_output_kind(p: RenderOutputProfile) -> FfmpegOutputKind {
    match p {
        RenderOutputProfile::PreviewFrame { format, .. } => match format {
            PreviewFrameFormat::Png => FfmpegOutputKind::PreviewFramePng,
            PreviewFrameFormat::Jpeg => FfmpegOutputKind::PreviewFrameJpeg,
        },
        RenderOutputProfile::PreviewSegment { .. } => FfmpegOutputKind::PreviewSegmentMp4,
        RenderOutputProfile::ExportMp4 { .. } => FfmpegOutputKind::ExportMp4,
    }
}

/// The kind of output of a profile.
pub fn output_kind(profile: &RenderOutputProfile) -> (r: FfmpegOutputKind)
    ensures
        r == spec_output_kind(*profile),
{
    match profile {
        RenderOutputProfile::PreviewFrame { format, .. } => match format {
            PreviewFrameFormat::Png => FfmpegOutputKind::PreviewFramePng,
            PreviewFrameFormat::Jpeg => FfmpegOutputKind::PreviewFrameJpeg,
        },
        RenderOutputProfile::PreviewSegment { .. } => FfmpegOutputKind::PreviewSegmentMp4,
        RenderOutputProfile::ExportMp4 { .. } => FfmpegOutputKind::ExportMp4,
    }
}

/// The profile's id, dimensions, frame rate and time range.
pub open spec fn profile_parts(p: RenderOutputProfile) -> (String, OutputDimensionsSnapshot, RationalFrameRate, TargetTimerange) {
    match p {
        RenderOutputProfile::PreviewFrame { profile_id, dimensions, frame_rate, target_timerange, .. } =>
            (profile_id, dimensions, frame_rate, target_timerange),
        RenderOutputProfile::PreviewSegment { profile_id, dimensions, frame_rate, target_timerange, .. } =>
            (profile_id, dimensions, frame_rate, target_timerange),
        RenderOutputProfile::ExportMp4 { profile_id, dimensions, frame_rate, target_timerange, .. } =>
            (profile_id, dimensions, frame_rate, target_timerange),
    }
}

/// The id of a profile.
pub fn profile_id(profile: &RenderOutputProfile) -> (r: &String)
    ensures
        *r == profile_parts(*profile).0,
{
    match profile {
        RenderOutputProfile::PreviewFrame { profile_id, .. } => profile_id,
        RenderOutputProfile::PreviewSegment { profile_id, .. } => profile_id,
        RenderOutputProfile::ExportMp4 { profile_id, .. } => profile_id,
    }
}

/// The time range a profile renders.
pub fn output_timerange(profile: &RenderOutputProfile) -> (r: TargetTimerange)
    ensures
        r == profile_parts(*profile).3,
{
    match profile {
        RenderOutputProfile::PreviewFrame { target_timerange, .. } => *target_timerange,
        RenderOutputProfile::PreviewSegment { target_timerange, .. } => *target_timerange,
        RenderOutputProfile::ExportMp4 { target_timerange, .. } => *target_timerange,
    }
}

/// Which missing encoder stops a profile from being compiled, as message
/// and remediation.
pub open spec fn capability_problem(p: RenderOutputProfile, c: CompilerCapabilities) -> Option<(Seq<char>, Seq<char>)> {
    match p {
        RenderOutputProfile::PreviewFrame { .. } => None,
        _ => if !c.supports_h264_encoder {
            Some(("H.264 encoder is not available for MP4 output"@,
                "Install or select an FFmpeg runtime with libx264 or a supported hardware H.264 encoder."@))
        } else if !c.supports_aac_encoder {
            Some(("AAC encoder is not available for MP4 output"@,
                "Install or select an FFmpeg runtime with AAC encoder support."@))
        } else {
            None
        },
    }
}

/// MP4 output needs the H.264 and AAC encoders; frames need neither.
pub fn validate_profile_capabilities(profile: &RenderOutputProfile, capabilities: &CompilerCapabilities) -> (r: Result<(), FfmpegCompileError>)
    ensures
        match r {
            Ok(()) => capability_problem(*profile, *capabilities) is None,
            Err(e) => e.kind == FfmpegCompileErrorKind::UnsupportedEncoder && e.material_id is None
                && capability_problem(*profile, *capabilities) == Some((e.message@, e.remediation@)),
        },
{
    match profile {
        RenderOutputProfile::PreviewFrame { .. } => Ok(()),
        _ => {
            if !capabilities.supports_h264_encoder {
                return Err(FfmpegCompileError::new(
                    FfmpegCompileErrorKind::UnsupportedEncoder,
                    lit("H.264 encoder is not available for MP4 output"),
                    lit("Install or select an FFmpeg runtime with libx264 or a supported hardware H.264 encoder."),
                ));
            }
            if !capabilities.supports_aac_encoder {
                return Err(FfmpegCompileError::new(
                    FfmpegCompileErrorKind::UnsupportedEncoder,
                    lit("AAC encoder is not available for MP4 output"),
                    lit("Install or select an FFmpeg runtime with AAC encoder support."),
                ));
            }
            Ok(())
        },
    }
}

pub open spec fn opt_text(o: Option<String>) -> Option<Seq<char>> {
    match o {
        Some(s) => Some(s@),
        None => None,
    }
}

/// The value of encoder settings.
pub type EncodeSettingsView = (Option<Seq<char>>, Option<Seq<char>>, Option<Seq<char>>, Option<u8>, Option<u32>,
    Option<Seq<char>>, OutputDimensionsSnapshot, RationalFrameRate);

pub open spec fn settings_view(s: EncodeSettings) -> EncodeSettingsView {
    (opt_text(s.container), opt_text(s.video_codec), opt_text(s.audio_codec), s.crf, s.audio_bitrate_kbps,
        opt_text(s.pixel_format), s.dimensions, s.frame_rate)
}

/// Encoder settings a profile asks for: none for a frame, CRF 28 and 128
/// kbps AAC for a preview segment, the preset's for an export.
pub open spec fn spec_encode_settings(p: RenderOutputProfile) -> EncodeSettingsView {
    match p {
        RenderOutputProfile::PreviewFrame { dimensions, frame_rate, .. } =>
            (None, None, None, None, None, None, dimensions, frame_rate),
        RenderOutputProfile::PreviewSegment { dimensions, frame_rate, .. } =>
            (Some("mp4"@), Some("libx264"@), Some("aac"@), Some(28u8), Some(128u32), Some("yuv420p"@), dimensions, frame_rate),
        RenderOutputProfile::ExportMp4 { dimensions, frame_rate, preset, .. } =>
            (Some("mp4"@), Some("libx264"@), Some("aac"@), Some(preset.crf), Some(preset.audio_bitrate_kbps),
                Some("yuv420p"@), dimensions, frame_rate),
    }
}

fn container_name(container: RenderContainer) -> (r: &'static str)
    ensures
        r@ == "mp4"@,
{
    match container {
        RenderContainer::Mp4 => "mp4",
    }
}

fn video_codec_name(codec: RenderVideoCodec) -> (r: &'static str)
    ensures
        r@ == "libx264"@,
{
    match codec {
        RenderVideoCodec::H264 => "libx264",
    }
}

fn audio_codec_name(codec: RenderAudioCodec) -> (r: &'static str)
    ensures
        r@ == "aac"@,
{
    match codec {
        RenderAudioCodec::Aac => "aac",
    }
}

/// Encoder settings of an MP4 export preset.
pub fn encode_settings_from_preset(width: u32, height: u32, frame_rate: &RationalFrameRate, preset: &ExportMp4Preset) -> (r: EncodeSettings)
    ensures
        settings_view(r) == (Some("mp4"@), Some("libx264"@), Some("aac"@), Some(preset.crf), Some(preset.audio_bitrate_kbps),
            Some("yuv420p"@), OutputDimensionsSnapshot { width, height }, *frame_rate),
{
    EncodeSettings {
        container: Some(lit(container_name(preset.container))),
        video_codec: Some(lit(video_codec_name(preset.video_codec))),
        audio_codec: Some(lit(audio_codec_name(preset.audio_codec))),
        crf: Some(preset.crf),
        audio_bitrate_kbps: Some(preset.audio_bitrate_kbps),
        pixel_format: Some(lit("yuv420p")),
        dimensions: OutputDimensionsSnapshot { width, height },
        frame_rate: *frame_rate,
    }
}

/// Encoder settings of a profile.
pub fn encode_settings(profile: &RenderOutputProfile) -> (r: EncodeSettings)
    ensures
        settings_view(r) == spec_encode_settings(*profile),
{
    match profile {
        RenderOutputProfile::PreviewFrame { dimensions, frame_rate, .. } => EncodeSettings {
            container: None,
            video_codec: None,
            audio_codec: None,
            crf: None,
            audio_bitrate_kbps: None,
            pixel_format: None,
            dimensions: *dimensions,
            frame_rate: *frame_rate,
        },
        RenderOutputProfile::PreviewSegment { dimensions, frame_rate, container, video_codec, audio_codec, .. } => EncodeSettings {
            container: Some(lit(container_name(*container))),
            video_codec: Some(lit(video_codec_name(*video_codec))),
            audio_codec: Some(lit(audio_codec_name(*audio_codec))),
            crf: Some(28),
            audio_bitrate_kbps: Some(128),
            pixel_format: Some(lit("yuv420p")),
            dimensions: *dimensions,
            frame_rate: *frame_rate,
        },
        RenderOutputProfile::ExportMp4 { dimensions, frame_rate, preset, .. } =>
            encode_settings_from_preset(dimensions.width, dimensions.height, frame_rate, preset),
    }
}

/// What the output of a profile must satisfy: it exists, is non-empty,
/// has the profile's duration, rate and size, and an audio stream when
/// audio is produced and the output is not a single frame.
pub open spec fn spec_output_validation(p: RenderOutputProfile, has_audio_output: bool) -> OutputValidationExpectation {
    let parts = profile_parts(p);
    OutputValidationExpectation {
        must_exist: true,
        must_be_non_empty: true,
        expected_duration: parts.3.duration,
        expected_frame_rate: parts.2,
        expected_width: parts.1.width,
        expected_height: parts.1.height,
        expect_audio_stream: has_audio_output && !(p is PreviewFrame),
    }
}

/// The checks the produced file must pass.
pub fn output_validation(profile: &RenderOutputProfile, has_audio_output: bool) -> (r: OutputValidationExpectation)
    ensures
        r == spec_output_validation(*profile, has_audio_output),
{
    let (dimensions, frame_rate, range, is_frame) = match profile {
        RenderOutputProfile::PreviewFrame { dimensions, frame_rate, target_timerange, .. } =>
            (*dimensions, *frame_rate, *target_timerange, true),
        RenderOutputProfile::PreviewSegment { dimensions, frame_rate, target_timerange, .. } =>
            (*dimensions, *frame_rate, *target_timerange, false),
        RenderOutputProfile::ExportMp4 { dimensions, frame_rate, target_timerange, .. } =>
            (*dimensions, *frame_rate, *target_timerange, false),
    };
    OutputValidationExpectation {
        must_exist: true,
        must_be_non_empty: true,
        expected_duration: range.duration,
        expected_frame_rate: frame_rate,
        expected_width: dimensions.width,
        expected_height: dimensions.height,
        expect_audio_stream: has_audio_output && !is_frame,
    }
}

/// `-i path` for each input.
pub open spec fn input_args(paths: Seq<Seq<char>>) -> Seq<Seq<char>>
    decreases paths.len(),
{
    if paths.len() == 0 {
        Seq::empty()
    } else {
        input_args(paths.drop_last()) + seq!["-i"@, paths.last()]
    }
}

pub open spec fn or_default(o: Option<Seq<char>>, d: Seq<char>) -> Seq<char> {
    match o {
        Some(v) => v,
        None => d,
    }
}

/// Output flags of an MP4 job.
pub open spec fn mp4_args(settings: EncodeSettingsView, output_duration: u64, has_audio_output: bool) -> Seq<Seq<char>> {
    let audio_map: Seq<Seq<char>> = if has_audio_output { seq!["-map"@, "[aout]"@] } else { Seq::empty() };
    let crf: nat = match settings.3 {
        Some(c) => c as nat,
        None => 23,
    };
    let bitrate: nat = match settings.4 {
        Some(b) => b as nat,
        None => 128,
    };
    let audio: Seq<Seq<char>> = if has_audio_output {
        seq!["-c:a"@, or_default(settings.2, "aac"@), "-b:a"@, decimal(bitrate) + "k"@]
    } else {
        Seq::empty()
    };
    audio_map + seq!["-c:v"@, or_default(settings.1, "libx264"@), "-pix_fmt"@, or_default(settings.5, "yuv420p"@),
        "-crf"@, decimal(crf)] + audio + seq!["-t"@, seconds_text(output_duration), "-movflags"@, "+faststart"@]
}

/// Output flags of a job of the given kind.
pub open spec fn output_args(kind: FfmpegOutputKind, settings: EncodeSettingsView, output_duration: u64, has_audio_output: bool) -> Seq<Seq<char>> {
    match kind {
        FfmpegOutputKind::PreviewFramePng => seq!["-frames:v"@, "1"@, "-f"@, "image2"@, "-c:v"@, "png"@],
        FfmpegOutputKind::PreviewFrameJpeg => seq!["-frames:v"@, "1"@, "-f"@, "image2"@, "-c:v"@, "mjpeg"@],
        _ => mp4_args(settings, output_duration, has_audio_output),
    }
}

/// The FFmpeg command line of a job.
pub open spec fn spec_args(
    input_paths: Seq<Seq<char>>,
    filter_script_path: Seq<char>,
    output_path: Seq<char>,
    kind: FfmpegOutputKind,
    settings: EncodeSettingsView,
    output_duration: u64,
    has_audio_output: bool,
) -> Seq<Seq<char>> {
    seq!["-y"@] + input_args(input_paths) + seq!["-filter_complex_script"@, filter_script_path, "-map"@, "[vout]"@]
        + output_args(kind, settings, output_duration, has_audio_output) + seq![output_path]
}

fn push_lit(args: &mut Vec<String>, s: &str)
    ensures
        crate::text::strings_view(final(args)@) == crate::text::strings_view(old(args)@).push(s@),
{
    args.push(lit(s));
    proof {
        assert(crate::text::strings_view(args@) =~= crate::text::strings_view(old(args)@).push(s@));
    }
}

fn push_string(args: &mut Vec<String>, s: String)
    ensures
        crate::text::strings_view(final(args)@) == crate::text::strings_view(old(args)@).push(s@),
{
    let ghost v = s@;
    args.push(s);
    proof {
        assert(crate::text::strings_view(args@) =~= crate::text::strings_view(old(args)@).push(v));
    }
}

fn opt_or<'a>(o: &'a Option<String>, d: &'a str) -> (r: &'a str)
    ensures
        r@ == or_default(opt_text(*o), d@),
{
    match o {
        Some(v) => v.as_str(),
        None => d,
    }
}

fn mp4_output_args(encode_settings: &EncodeSettings, output_duration: u64, has_audio_output: bool) -> (args: Vec<String>)
    ensures
        crate::text::strings_view(args@) == mp4_args(settings_view(*encode_settings), output_duration, has_audio_output),
{
    let mut args: Vec<String> = Vec::new();
    if has_audio_output {
        push_lit(&mut args, "-map");
        push_lit(&mut args, "[aout]");
    }
    push_lit(&mut args, "-c:v");
    push_lit(&mut args, opt_or(&encode_settings.video_codec, "libx264"));
    push_lit(&mut args, "-pix_fmt");
    push_lit(&mut args, opt_or(&encode_settings.pixel_format, "yuv420p"));
    push_lit(&mut args, "-crf");
    let crf: u8 = match encode_settings.crf {
        Some(c) => c,
        None => 23,
    };
    push_string(&mut args, u64_to_decimal(crf as u64));
    if has_audio_output {
        push_lit(&mut args, "-c:a");
        push_lit(&mut args, opt_or(&encode_settings.audio_codec, "aac"));
        push_lit(&mut args, "-b:a");
        let bitrate: u32 = match encode_settings.audio_bitrate_kbps {
            Some(b) => b,
            None => 128,
        };
        let mut b = u64_to_decimal(bitrate as u64);
        append_str(&mut b, "k");
        push_string(&mut args, b);
    }
    push_lit(&mut args, "-t");
    push_string(&mut args, format_seconds(output_duration));
    push_lit(&mut args, "-movflags");
    push_lit(&mut args, "+faststart");
    proof {
        assert(crate::text::strings_view(args@) =~= mp4_args(settings_view(*encode_settings), output_duration, has_audio_output));
    }
    args
}

fn kind_output_args(output_kind: FfmpegOutputKind, encode_settings: &EncodeSettings, output_duration: u64, has_audio_output: bool) -> (args: Vec<String>)
    ensures
        crate::text::strings_view(args@) == output_args(output_kind, settings_view(*encode_settings), output_duration, has_audio_output),
{
    match output_kind {
        FfmpegOutputKind::PreviewFramePng | FfmpegOutputKind::PreviewFrameJpeg => {
            let mut args: Vec<String> = Vec::new();
            push_lit(&mut args, "-frames:v");
            push_lit(&mut args, "1");
            push_lit(&mut args, "-f");
            push_lit(&mut args, "image2");
            push_lit(&mut args, "-c:v");
            match output_kind {
                FfmpegOutputKind::PreviewFramePng => push_lit(&mut args, "png"),
                _ => push_lit(&mut args, "mjpeg"),
            }
            proof {
                assert(crate::text::strings_view(args@) =~= output_args(output_kind, settings_view(*encode_settings), output_duration, has_audio_output));
            }
            args
        },
        _ => mp4_output_args(encode_settings, output_duration, has_audio_output),
    }
}

/// The FFmpeg command line: inputs, the filter script, the output mapping
/// and encoder flags, then the output path.
pub fn build_args(
    inputs: &Vec<FfmpegInput>,
    filter_script_path: &str,
    output_path: &str,
    output_kind: FfmpegOutputKind,
    encode_settings: &EncodeSettings,
    output_duration: u64,
    has_audio_output: bool,
) -> (args: Vec<String>)
    ensures
        crate::text::strings_view(args@) == spec_args(
            inputs@.map_values(|i: FfmpegInput| i.ffmpeg_path@),
            filter_script_path@,
            output_path@,
            output_kind,
            settings_view(*encode_settings),
            output_duration,
            has_audio_output,
        ),
{
    let ghost paths = inputs@.map_values(|i: FfmpegInput| i.ffmpeg_path@);
    let mut args: Vec<String> = Vec::new();
    push_lit(&mut args, "-y");
    let mut i: usize = 0;
    while i < inputs.len()
        invariant
            paths == inputs@.map_values(|i: FfmpegInput| i.ffmpeg_path@),
            i <= inputs@.len(),
            crate::text::strings_view(args@) == seq!["-y"@] + input_args(paths.subrange(0, i as int)),
        decreases inputs@.len() - i,
    {
        push_lit(&mut args, "-i");
        push_string(&mut args, inputs[i].ffmpeg_path.clone());
        proof {
            assert(paths.subrange(0, i + 1).drop_last() =~= paths.subrange(0, i as int));
            assert(seq!["-y"@] + input_args(paths.subrange(0, i + 1)) =~= seq!["-y"@] + input_args(paths.subrange(0, i as int)) + seq!["-i"@, paths[i as int]]);
        }
        i = i + 1;
    }
    proof {
        assert(paths.subrange(0, inputs@.len() as int) =~= paths);
    }
    push_lit(&mut args, "-filter_complex_script");
    push_lit(&mut args, filter_script_path);
    push_lit(&mut args, "-map");
    push_lit(&mut args, "[vout]");
    let ghost head = crate::text::strings_view(args@);
    let mut tail = kind_output_args(output_kind, encode_settings, output_duration, has_audio_output);
    let ghost tail_view = crate::text::strings_view(tail@);
    let ghost before = args@;
    let ghost tail_seq = tail@;
    args.append(&mut tail);
    proof {
        assert(args@ == before + tail_seq);
        assert(crate::text::strings_view(args@) =~= head + tail_view);
    }
    push_lit(&mut args, output_path);
    proof {
        assert(crate::text::strings_view(args@) =~= spec_args(paths, filter_script_path@, output_path@, output_kind,
            settings_view(*encode_settings), output_duration, has_audio_output));
    }
    args
}

/// Positions of the first `n` materials that FFmpeg reads (those with
/// video or audio).
pub open spec fn input_positions(ms: Seq<RenderMaterial>, n: int) -> Seq<int>
    decreases n,
{
    if n <= 0 {
        Seq::empty()
    } else if ms[n - 1].has_video || ms[n - 1].has_audio {
        input_positions(ms, n - 1).push(n - 1)
    } else {
        input_positions(ms, n - 1)
    }
}

/// `input` is input number `index`, made from material `m`.
pub open spec fn input_matches(input: FfmpegInput, index: int, m: RenderMaterial) -> bool {
    &&& input.input_index == index
    &&& input.material_id@ == m.material_id@
    &&& input.material_kind == m.kind
    &&& input.uri@ == m.uri@
    &&& input.ffmpeg_path@ == ffmpeg_path_text(m.uri@)
    &&& input.has_video == m.has_video
    &&& input.has_audio == m.has_audio
}

proof fn lemma_input_positions_len(ms: Seq<RenderMaterial>, n: int)
    ensures
        0 <= input_positions(ms, n).len() <= if n < 0 { 0 } else { n },
        forall|k: int| 0 <= k < input_positions(ms, n).len() ==> 0 <= #[trigger] input_positions(ms, n)[k] < n,
    decreases n,
{
    if n > 0 {
        lemma_input_positions_len(ms, n - 1);
    }
}

/// The FFmpeg inputs: every material with video or audio, numbered in order.
pub fn collect_inputs(materials: &Vec<RenderMaterial>) -> (r: Result<Vec<FfmpegInput>, FfmpegCompileError>)
    ensures
        match r {
            Ok(inputs) => {
                let ps = input_positions(materials@, materials@.len() as int);
                &&& ps.len() <= u32::MAX as int + 1
                &&& inputs@.len() == ps.len()
                &&& forall|k: int| 0 <= k < ps.len() ==> input_matches(#[trigger] inputs@[k], k, materials@[ps[k]])
            },
            Err(e) => e.kind == FfmpegCompileErrorKind::MissingInputMaterial
                && input_positions(materials@, materials@.len() as int).len() > u32::MAX as int + 1
                && e.message@ == "too many FFmpeg input materials to index deterministically"@
                && e.remediation@ == "Reduce the number of render materials in the graph."@,
        },
{
    let ghost ms = materials@;
    let mut inputs: Vec<FfmpegInput> = Vec::new();
    let mut i: usize = 0;
    while i < materials.len()
        invariant
            ms == materials@,
            i <= ms.len(),
            inputs@.len() == input_positions(ms, i as int).len(),
            inputs@.len() <= u32::MAX as int + 1,
            forall|k: int| 0 <= k < inputs@.len() ==> input_matches(#[trigger] inputs@[k], k, ms[input_positions(ms, i as int)[k]]),
        decreases ms.len() - i,
    {
        let m = &materials[i];
        if m.has_video || m.has_audio {
            let index = inputs.len();
            if index > u32::MAX as usize {
                proof {
                    lemma_input_positions_monotone(ms, i as int + 1, ms.len() as int);
                }
                return Err(FfmpegCompileError::new(
                    FfmpegCompileErrorKind::MissingInputMaterial,
                    lit("too many FFmpeg input materials to index deterministically"),
                    lit("Reduce the number of render materials in the graph."),
                ));
            }
            let input = FfmpegInput {
                input_index: index as u32,
                material_id: m.material_id.clone(),
                material_kind: m.kind,
                uri: m.uri.clone(),
                ffmpeg_path: ffmpeg_path_from_uri(m.uri.as_str()),
                has_video: m.has_video,
                has_audio: m.has_audio,
            };
            let ghost old_inputs = inputs@;
            inputs.push(input);
            proof {
                assert forall|k: int| 0 <= k < inputs@.len() implies input_matches(#[trigger] inputs@[k], k, ms[input_positions(ms, i + 1)[k]]) by {
                    if k < old_inputs.len() {
                        assert(inputs@[k] == old_inputs[k]);
                    }
                }
            }
        }
        i = i + 1;
    }
    Ok(inputs)
}

proof fn lemma_input_positions_monotone(ms: Seq<RenderMaterial>, a: int, b: int)
    requires
        0 <= a <= b,
    ensures
        input_positions(ms, a).len() <= input_positions(ms, b).len(),
    decreases b - a,
{
    if a < b {
        lemma_input_positions_monotone(ms, a, b - 1);
    }
}

/// Support status of a render intent.
#[derive(Debug, Clone, Copy, PartialEq, Eq, Structural)]
pub enum RenderIntentSupport {
    Supported,
    Degraded,
    Unsupported,
}

/// A visual intent that export does not fully support.
#[derive(Debug, Clone)]
pub struct RenderVisualDiagnostic {
    pub track_id: String,
    pub segment_id: String,
    pub material_id: String,
    pub property: String,
    pub support: RenderIntentSupport,
    pub reason: String,
}

/// A diagnostic for an intent that export supports only partly or not at all.
pub fn export_support_diagnostic(
    track_id: &String,
    segment_id: &String,
    material_id: &String,
    property: &str,
    support: RenderIntentSupport,
    reason: &str,
) -> (r: Option<RenderVisualDiagnostic>)
    ensures
        r is None <==> support == RenderIntentSupport::Supported,
        r matches Some(d) ==> d.track_id == *track_id && d.segment_id == *segment_id && d.material_id == *material_id
            && d.property@ == property@ && d.support == support && d.reason@ == reason@,
{
    if support == RenderIntentSupport::Supported {
        return None;
    }
    Some(RenderVisualDiagnostic {
        track_id: track_id.clone(),
        segment_id: segment_id.clone(),
        material_id: material_id.clone(),
        property: lit(property),
        support,
        reason: lit(reason),
    })
}

/// A filter of a segment in the render graph: whether export supports it,
/// and why not.
#[derive(Debug, Clone)]
pub struct RenderFilterIntent {
    pub support: RenderIntentSupport,
    pub reason: String,
}

/// A diagnostic by its plain values.
pub open spec fn diagnostic_view(d: RenderVisualDiagnostic) -> (Seq<char>, Seq<char>, Seq<char>, Seq<char>, RenderIntentSupport, Seq<char>) {
    (d.track_id@, d.segment_id@, d.material_id@, d.property@, d.support, d.reason@)
}

/// The diagnostics of a segment's filters that export does not fully
/// support, in order.
pub open spec fn filter_diagnostics(track: Seq<char>, segment: Seq<char>, material: Seq<char>, filters: Seq<RenderFilterIntent>) -> Seq<(Seq<char>, Seq<char>, Seq<char>, Seq<char>, RenderIntentSupport, Seq<char>)>
    decreases filters.len(),
{
    if filters.len() == 0 {
        Seq::empty()
    } else {
        let f = filters.last();
        filter_diagnostics(track, segment, material, filters.drop_last())
            + (if f.support != RenderIntentSupport::Supported {
                seq![(track, segment, material, "filter"@, f.support, f.reason@)]
            } else {
                Seq::empty()
            })
    }
}

/// The diagnostic of a segment's transition, when export does not fully
/// support it.
pub open spec fn transition_diagnostics(track: Seq<char>, segment: Seq<char>, material: Seq<char>, t: Option<RenderTransitionIntent>) -> Seq<(Seq<char>, Seq<char>, Seq<char>, Seq<char>, RenderIntentSupport, Seq<char>)> {
    match t {
        Some(t) => if t.support != RenderIntentSupport::Supported {
            seq![(track, segment, material, "transition"@, t.support, t.reason@)]
        } else {
            Seq::empty()
        },
        None => Seq::empty(),
    }
}

/// The diagnostic of a filter, unless export supports it.
pub fn filter_export_diagnostic(track_id: &String, segment_id: &String, material_id: &String, filter: &RenderFilterIntent) -> (r: Option<RenderVisualDiagnostic>)
    ensures
        match r {
            Some(d) => filter.support != RenderIntentSupport::Supported
                && diagnostic_view(d) == (track_id@, segment_id@, material_id@, "filter"@, filter.support, filter.reason@),
            None => filter.support == RenderIntentSupport::Supported,
        },
{
    export_support_diagnostic(track_id, segment_id, material_id, "filter", filter.support, filter.reason.as_str())
}

/// The diagnostic of a transition, unless export supports it.
pub fn transition_export_diagnostic(track_id: &String, segment_id: &String, material_id: &String, transition: &RenderTransitionIntent) -> (r: Option<RenderVisualDiagnostic>)
    ensures
        match r {
            Some(d) => transition.support != RenderIntentSupport::Supported
                && diagnostic_view(d) == (track_id@, segment_id@, material_id@, "transition"@, transition.support, transition.reason@),
            None => transition.support == RenderIntentSupport::Supported,
        },
{
    export_support_diagnostic(track_id, segment_id, material_id, "transition", transition.support, transition.reason.as_str())
}

/// Appends the diagnostics of a segment's filters and transition.
fn push_owner_diagnostics(
    out: &mut Vec<RenderVisualDiagnostic>,
    track_id: &String,
    segment_id: &String,
    material_id: &String,
    filters: &Vec<RenderFilterIntent>,
    transition: &Option<RenderTransitionIntent>,
)
    ensures
        final(out)@.map_values(|d: RenderVisualDiagnostic| diagnostic_view(d))
            == old(out)@.map_values(|d: RenderVisualDiagnostic| diagnostic_view(d))
            + filter_diagnostics(track_id@, segment_id@, material_id@, filters@)
            + transition_diagnostics(track_id@, segment_id@, material_id@, *transition),
{
    let ghost start = out@.map_values(|d: RenderVisualDiagnostic| diagnostic_view(d));
    let mut i: usize = 0;
    while i < filters.len()
        invariant
            i <= filters@.len(),
            out@.map_values(|d: RenderVisualDiagnostic| diagnostic_view(d))
                == start + filter_diagnostics(track_id@, segment_id@, material_id@, filters@.subrange(0, i as int)),
        decreases filters@.len() - i,
    {
        let ghost before = out@;
        proof {
            assert(filters@.subrange(0, i + 1).drop_last() =~= filters@.subrange(0, i as int));
            assert(filters@.subrange(0, i + 1).last() == filters@[i as int]);
        }
        match filter_export_diagnostic(track_id, segment_id, material_id, &filters[i]) {
            Some(d) => {
                out.push(d);
                proof {
                    assert(out@.map_values(|d: RenderVisualDiagnostic| diagnostic_view(d))
                        =~= before.map_values(|d: RenderVisualDiagnostic| diagnostic_view(d)).push(diagnostic_view(out@.last())));
                }
            },
            None => {},
        }
        i = i + 1;
    }
    proof {
        assert(filters@.subrange(0, filters@.len() as int) =~= filters@);
    }
    let ghost mid = out@;
    match transition {
        Some(t) => match transition_export_diagnostic(track_id, segment_id, material_id, t) {
            Some(d) => {
                out.push(d);
                proof {
                    assert(out@.map_values(|d: RenderVisualDiagnostic| diagnostic_view(d))
                        =~= mid.map_values(|d: RenderVisualDiagnostic| diagnostic_view(d)).push(diagnostic_view(out@.last())));
                }
            },
            None => {},
        },
        None => {},
    }
    proof {
        assert(out@.map_values(|d: RenderVisualDiagnostic| diagnostic_view(d))
            =~= start + filter_diagnostics(track_id@, segment_id@, material_id@, filters@)
            + transition_diagnostics(track_id@, segment_id@, material_id@, *transition));
    }
}

/// The diagnostics of the first `n` video layers, in order.
pub open spec fn layer_capability_diagnostics(layers: Seq<RenderVideoLayer>, n: int) -> Seq<(Seq<char>, Seq<char>, Seq<char>, Seq<char>, RenderIntentSupport, Seq<char>)>
    decreases n,
{
    if n <= 0 {
        Seq::empty()
    } else {
        let l = layers[n - 1];
        layer_capability_diagnostics(layers, n - 1) + filter_diagnostics(l.track_id@, l.segment_id@, l.material_id@, l.filters@)
            + transition_diagnostics(l.track_id@, l.segment_id@, l.material_id@, l.transition)
    }
}

/// The diagnostics of the first `n` text overlays, in order.
pub open spec fn overlay_capability_diagnostics(overlays: Seq<RenderTextOverlay>, n: int) -> Seq<(Seq<char>, Seq<char>, Seq<char>, Seq<char>, RenderIntentSupport, Seq<char>)>
    decreases n,
{
    if n <= 0 {
        Seq::empty()
    } else {
        let o = overlays[n - 1];
        overlay_capability_diagnostics(overlays, n - 1)
            + filter_diagnostics(o.overlay.track_id@, o.overlay.segment_id@, o.material_id@, o.filters@)
            + transition_diagnostics(o.overlay.track_id@, o.overlay.segment_id@, o.material_id@, o.transition)
    }
}

/// The diagnostics of the first `n` audio segments, in order.
pub open spec fn mix_capability_diagnostics(mixes: Seq<RenderAudioMix>, n: int) -> Seq<(Seq<char>, Seq<char>, Seq<char>, Seq<char>, RenderIntentSupport, Seq<char>)>
    decreases n,
{
    if n <= 0 {
        Seq::empty()
    } else {
        let m = mixes[n - 1];
        mix_capability_diagnostics(mixes, n - 1) + filter_diagnostics(m.track_id@, m.segment_id@, m.material_id@, m.filters@)
    }
}

/// The diagnostics of every filter and transition that export does not
/// fully support: the video layers', then the text overlays', then the
/// audio segments' filters.
pub fn effect_capability_diagnostics(
    video_layers: &Vec<RenderVideoLayer>,
    text_overlays: &Vec<RenderTextOverlay>,
    audio_mixes: &Vec<RenderAudioMix>,
) -> (r: Vec<RenderVisualDiagnostic>)
    ensures
        r@.map_values(|d: RenderVisualDiagnostic| diagnostic_view(d))
            == layer_capability_diagnostics(video_layers@, video_layers@.len() as int)
            + overlay_capability_diagnostics(text_overlays@, text_overlays@.len() as int)
            + mix_capability_diagnostics(audio_mixes@, audio_mixes@.len() as int),
{
    let mut out: Vec<RenderVisualDiagnostic> = Vec::new();
    let mut i: usize = 0;
    while i < video_layers.len()
        invariant
            i <= video_layers@.len(),
            out@.map_values(|d: RenderVisualDiagnostic| diagnostic_view(d)) == layer_capability_diagnostics(video_layers@, i as int),
        decreases video_layers@.len() - i,
    {
        let l = &video_layers[i];
        push_owner_diagnostics(&mut out, &l.track_id, &l.segment_id, &l.material_id, &l.filters, &l.transition);
        i = i + 1;
    }
    let ghost a = layer_capability_diagnostics(video_layers@, video_layers@.len() as int);
    let mut j: usize = 0;
    while j < text_overlays.len()
        invariant
            j <= text_overlays@.len(),
            out@.map_values(|d: RenderVisualDiagnostic| diagnostic_view(d)) == a + overlay_capability_diagnostics(text_overlays@, j as int),
        decreases text_overlays@.len() - j,
    {
        let o = &text_overlays[j];
        push_owner_diagnostics(&mut out, &o.overlay.track_id, &o.overlay.segment_id, &o.material_id, &o.filters, &o.transition);
        proof {
            assert(a + overlay_capability_diagnostics(text_overlays@, j + 1) =~= a + overlay_capability_diagnostics(text_overlays@, j as int)
                + filter_diagnostics(o.overlay.track_id@, o.overlay.segment_id@, o.material_id@, o.filters@)
                + transition_diagnostics(o.overlay.track_id@, o.overlay.segment_id@, o.material_id@, o.transition));
        }
        j = j + 1;
    }
    let ghost b = a + overlay_capability_diagnostics(text_overlays@, text_overlays@.len() as int);
    let none: Option<RenderTransitionIntent> = None;
    let mut k: usize = 0;
    while k < audio_mixes.len()
        invariant
            k <= audio_mixes@.len(),
            none is None,
            out@.map_values(|d: RenderVisualDiagnostic| diagnostic_view(d)) == b + mix_capability_diagnostics(audio_mixes@, k as int),
        decreases audio_mixes@.len() - k,
    {
        let m = &audio_mixes[k];
        push_owner_diagnostics(&mut out, &m.track_id, &m.segment_id, &m.material_id, &m.filters, &none);
        proof {
            assert(transition_diagnostics(m.track_id@, m.segment_id@, m.material_id@, none) =~= Seq::empty());
            assert(b + mix_capability_diagnostics(audio_mixes@, k + 1) =~= b + mix_capability_diagnostics(audio_mixes@, k as int)
                + filter_diagnostics(m.track_id@, m.segment_id@, m.material_id@, m.filters@));
        }
        k = k + 1;
    }
    out
}

/// A sanitized id keeps the length and holds only ASCII letters,
/// digits, `-` and `_`; characters already allowed stay in place.
pub proof fn law_sanitized_id_is_safe(s: Seq<char>)
    ensures
        sanitized(s).len() == s.len(),
        forall|i: int| 0 <= i < s.len() ==> {
            let c = #[trigger] sanitized(s)[i];
            is_ascii_alphanumeric(c) || c == '-' || c == '_'
        },
        forall|i: int| 0 <= i < s.len() && (is_ascii_alphanumeric(s[i]) || s[i] == '-' || s[i] == '_') ==> #[trigger] sanitized(s)[i] == s[i],
{
}

/// A preview frame's command line writes one `image2` frame to the output
/// path, encoded by `png` for a PNG profile and by `mjpeg` for a JPEG one:
/// the last seven arguments are `-frames:v 1 -f image2 -c:v <encoder>`
/// and the output path, and the two formats never share an encoder.
pub proof fn law_preview_frame_encoder_follows_format(
    input_paths: Seq<Seq<char>>,
    filter_script_path: Seq<char>,
    output_path: Seq<char>,
    p: RenderOutputProfile,
    settings: EncodeSettingsView,
    output_duration: u64,
    has_audio_output: bool,
)
    requires
        p is PreviewFrame,
    ensures
        ({
            let args = spec_args(input_paths, filter_script_path, output_path, spec_output_kind(p), settings,
                output_duration, has_audio_output);
            let n = args.len();
            let encoder = if p->PreviewFrame_format == PreviewFrameFormat::Jpeg { "mjpeg"@ } else { "png"@ };
            &&& n >= 7
            &&& args.subrange(n - 7, n as int) == seq!["-frames:v"@, "1"@, "-f"@, "image2"@, "-c:v"@, encoder, output_path]
        }),
        "mjpeg"@ != "png"@,
{
    reveal_strlit("mjpeg");
    reveal_strlit("png");
    assert("mjpeg"@[0] != "png"@[0]);
    let args = spec_args(input_paths, filter_script_path, output_path, spec_output_kind(p), settings,
        output_duration, has_audio_output);
    let n = args.len();
    let encoder = if p->PreviewFrame_format == PreviewFrameFormat::Jpeg { "mjpeg"@ } else { "png"@ };
    assert(args.subrange(n - 7, n as int) =~= seq!["-frames:v"@, "1"@, "-f"@, "image2"@, "-c:v"@, encoder, output_path]);
}

/// The input index FFmpeg gives a material: that of the last input
/// reading it.
pub open spec fn input_index_of(inputs: Seq<FfmpegInput>, material_id: Seq<char>) -> Option<u32>
    decreases inputs.len(),
{
    if inputs.len() == 0 {
        None
    } else if inputs.last().material_id@ == material_id {
        Some(inputs.last().input_index)
    } else {
        input_index_of(inputs.drop_last(), material_id)
    }
}

/// The input index of a material, if an input reads it.
pub fn input_index_by_material(inputs: &Vec<FfmpegInput>, material_id: &str) -> (r: Option<u32>)
    ensures
        r == input_index_of(inputs@, material_id@),
{
    let mut i: usize = inputs.len();
    proof {
        assert(inputs@.subrange(0, i as int) =~= inputs@);
    }
    while i > 0
        invariant
            i <= inputs@.len(),
            input_index_of(inputs@, material_id@) == input_index_of(inputs@.subrange(0, i as int), material_id@),
        decreases i,
    {
        proof {
            assert(inputs@.subrange(0, i as int).drop_last() =~= inputs@.subrange(0, i - 1));
        }
        if crate::text::str_eq(inputs[i - 1].material_id.as_str(), material_id) {
            return Some(inputs[i - 1].input_index);
        }
        i = i - 1;
    }
    None
}

/// The error for a material the render graph uses but no input reads.
pub fn missing_input(material_id: &String) -> (e: FfmpegCompileError)
    ensures
        e.kind == FfmpegCompileErrorKind::MissingInputMaterial,
        e.message@ == "render graph references material "@ + material_id@ + " without a matching FFmpeg input"@,
        e.remediation@ == "Ensure render_graph materials include every renderable video/audio material."@,
        e.material_id == Some(*material_id),
{
    let mut message = lit("render graph references material ");
    append_string(&mut message, material_id);
    append_str(&mut message, " without a matching FFmpeg input");
    FfmpegCompileError::new(
        FfmpegCompileErrorKind::MissingInputMaterial,
        message,
        lit("Ensure render_graph materials include every renderable video/audio material."),
    ).with_material_id(material_id.clone())
}

/// The duration of the output window.
pub fn output_duration(profile: &RenderOutputProfile) -> (r: u64)
    ensures
        r == profile_parts(*profile).3.duration,
{
    output_timerange(profile).duration
}

} // verus!
