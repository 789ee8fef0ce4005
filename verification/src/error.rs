//! The ways in which an analysis pass can fail.

use vstd::prelude::*;

verus! {

/// Why an analysis pass was given up. None of these is recovered from: the
/// pass yields a complete set of constraints or one of these.
#[derive(Debug, Clone, Copy, PartialEq, Eq, Structural)]
pub enum InferenceError {
    /// Two tuples, or two trait objects, of different lengths met where equal
    /// lengths are required.
    ArityMismatch,
    /// A construct that the analysis has no rule for: parenthesized path
    /// arguments, or lifetimes where only types are handled.
    UnsupportedConstruct,
    /// Two shapes met that can never be the same type, or the store of
    /// equality sets is not as it should be.
    InternalInconsistency,
}

} // verus!
