//! The error taxonomy of the pipeline. Every failure propagates to the
//! command-line boundary; nothing is retried.

use vstd::prelude::*;

verus! {

/// A fatal pipeline failure.
#[derive(Debug, PartialEq, Eq)]
pub enum PipelineError {
    /// A stage needed the persisted specification but the tess stage has
    /// never written it.
    ConfigNotFound,
    /// The persisted specification exists but is not valid structured data.
    ConfigMalformed,
    /// A specimen dimension is not a positive decimal numeral; carries the
    /// offending value.
    InvalidDimension(String),
    /// A grain-count or morphology value that cannot be embedded verbatim in
    /// the persisted record (empty grain count, or a character outside
    /// printable ASCII, a double quote or a backslash); carries the rejected
    /// value.
    InvalidConfigText(String),
    /// The regularization flag of a command specification was set to
    /// something other than "0" or "1"; carries the rejected value.
    InvalidRegFlag(String),
    /// A surface had no acceptable within-tolerance planar approximation;
    /// carries the tag of the offending surface.
    FlatnessCorrectionFailed(u64),
    /// An external process exited with a nonzero status; carries the program
    /// name and the status.
    ProcessFailed(String, i32),
}

} // verus!
