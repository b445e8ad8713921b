use vstd::prelude::*;

use crate::text::{append_string, lit};

verus! {

/// Classification of runtime failures.
#[derive(Debug, Clone, Copy, PartialEq, Eq, Structural)]
pub enum RuntimeErrorKind {
    InvalidRequest,
    UnknownRuntimeSession,
    UnknownProjectSession,
    UnknownHandle,
    WrongKind,
    WrongOwner,
    WrongDevice,
    TextureMetadataMismatch,
    StaleGeneration,
    LeaseExpired,
    DoubleRelease,
    ProjectStore,
    Scheduler,
}

/// A classified runtime error with a human readable message.
#[derive(Debug, Clone)]
pub struct RuntimeError {
    pub kind: RuntimeErrorKind,
    pub message: String,
}

impl RuntimeError {
    pub fn new(kind: RuntimeErrorKind, message: String) -> (err: Self)
        ensures
            err.kind == kind,
            err.message@ == message@,
    {
        RuntimeError { kind, message }
    }

    /// How the error reads to a person: `runtime error: {message}`.
    pub fn to_string(&self) -> (r: String)
        ensures
            r@ == "runtime error: "@ + self.message@,
    {
        let mut r = lit("runtime error: ");
        append_string(&mut r, &self.message);
        r
    }
}

} // verus!
