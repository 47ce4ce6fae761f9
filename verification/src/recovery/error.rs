//! Errors of a recovery run.

use vstd::prelude::*;
use std::path::PathBuf;
use crate::volume::VolumeError;

verus! {

/// `std::path::PathBuf`, carried through as an opaque value.
#[verifier::external_type_specification]
#[verifier::external_body]
pub struct ExPathBuf(std::path::PathBuf);

/// `PathBuf::clone`: a copy of the path, the same path as the original
/// (the path itself is opaque here).
pub assume_specification[ <std::path::PathBuf as Clone>::clone ](p: &std::path::PathBuf) -> (r: std::path::PathBuf)
    ensures
        r == *p,
;

#[derive(Debug)]
pub enum RecoveryError {
    Io(std::io::Error),
    /// The output directory cannot be created or is not a directory.
    InvalidOutputDir { path: PathBuf, reason: String },
    /// An NTFS path holds `..`.
    PathTraversal { path: String },
    /// A name that is empty once sanitized.
    UnsanitizableFilename { original: String },
    Volume(VolumeError),
    /// No free name found within the allowed number of renames.
    UniqueFilenameExhausted { attempts: u32 },
    /// A worker thread panicked.
    WorkerPanic,
}

} // verus!
