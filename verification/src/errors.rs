//! Failure taxonomy for probing, extraction and tag reading.

use vstd::prelude::*;

verus! {

/// Every operation of this crate either returns a fully valid value or one of
/// these failures, attributed to the path or external tool involved.
#[derive(Clone, Debug)]
pub enum MediaError {
    /// The given path does not name a regular file.
    NotAFile { path: String },
    /// The external probe process failed, or its output was not valid UTF-8
    /// JSON of the expected shape.
    ProbeFailed { path: String },
    /// A malformed stream record, bad fraction text, or a fraction with a
    /// zero denominator.
    MetadataParseFailed { detail: String },
    /// A decode/encode invocation exited with a non-zero status or could not
    /// be spawned.
    ExtractionProcessFailed { tool: String },
    /// The embedded tag container of a file could not be read.
    TagReadFailed { path: String },
    /// The file's tag container holds no embedded picture.
    NoAttachedPicture { path: String },
}

} // verus!
