//! Verified core of a timeline video editor: runtime sessions and handles,
//! timeline evaluation (retiming, keyframes, text layout) and the arithmetic
//! and string rules behind the FFmpeg command plan.
use vstd::prelude::*;

pub mod text;
pub mod order;
pub mod runtime;
pub mod engine;
pub mod compiler;

verus! {

} // verus!
