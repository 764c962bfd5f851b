//! Failures of the staging pipeline.

use vstd::prelude::*;

verus! {

/// Why a resource could not be brought to its committed state.
#[derive(Debug)]
pub enum PoleshiftError {
    /// A directory that the pipeline needs could not be determined.
    PathResolution(String),
    /// The transfer failed or the server answered with a non-success status.
    Network(String),
    /// Creating, writing, reading, renaming or removing a file failed.
    Filesystem(String),
    /// Freshly produced content does not hash to the expected digest.
    DigestMismatch { expected: String, found: String },
    /// Decompression was needed before the compressed artifact was committed.
    MissingPrecursor,
    /// The catalog is missing, unreadable or inconsistent.
    Configuration(String),
    /// Anything else.
    Other(String),
}

} // verus!
