//! Classified engine errors.
use vstd::prelude::*;

verus! {

/// Classification of engine failures and diagnostics.
#[derive(Debug, Clone, Copy, PartialEq, Eq, Structural)]
pub enum EngineErrorKind {
    DraftValidationFailed,
    InvalidEngineProfile,
    InvalidFrameRate,
    MissingMaterial,
    TimerangeOverflow,
    SourceRangeExceedsMaterialDuration,
    MutedTrack,
    UnavailableMaterial,
    MissingTextLayoutProfile,
    InvalidTextLayoutProfile,
    DegradedVisualIntent,
    UnsupportedVisualIntent,
}

/// An engine error, optionally attributed to a track, segment and material.
#[derive(Debug, Clone)]
pub struct EngineError {
    pub kind: EngineErrorKind,
    pub track_id: Option<String>,
    pub segment_id: Option<String>,
    pub material_id: Option<String>,
    pub message: String,
}

impl EngineError {
    /// An unattributed error of the given kind.
    pub fn new(kind: EngineErrorKind, message: String) -> (err: Self)
        ensures
            err.kind == kind,
            err.message@ == message@,
            err.track_id is None,
            err.segment_id is None,
            err.material_id is None,
    {
        EngineError { kind, track_id: None, segment_id: None, material_id: None, message }
    }

    /// The same error attributed to a track.
    pub fn with_track_id(self, track_id: String) -> (err: Self)
        ensures
            err.kind == self.kind,
            err.message == self.message,
            err.track_id == Some(track_id),
            err.segment_id == self.segment_id,
            err.material_id == self.material_id,
    {
        EngineError { track_id: Some(track_id), ..self }
    }

    /// The same error attributed to a segment.
    pub fn with_segment_id(self, segment_id: String) -> (err: Self)
        ensures
            err.kind == self.kind,
            err.message == self.message,
            err.track_id == self.track_id,
            err.segment_id == Some(segment_id),
            err.material_id == self.material_id,
    {
        EngineError { segment_id: Some(segment_id), ..self }
    }

    /// The same error attributed to a material.
    pub fn with_material_id(self, material_id: String) -> (err: Self)
        ensures
            err.kind == self.kind,
            err.message == self.message,
            err.track_id == self.track_id,
            err.segment_id == self.segment_id,
            err.material_id == Some(material_id),
    {
        EngineError { material_id: Some(material_id), ..self }
    }
}

} // verus!
