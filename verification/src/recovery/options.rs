//! Options of a recovery run.

use vstd::prelude::*;

verus! {

/// How a recovery run behaves.
#[derive(Debug, Clone)]
pub struct RecoveryOptions {
    pub conflict_strategy: ConflictStrategy,
    /// Put ` (deleted-#N)` into the names of deleted files.
    pub mark_deleted_in_filename: bool,
    /// Write live and deleted files under separate directories.
    pub separate_live_and_deleted: bool,
    pub compute_sha256: bool,
    /// Check each recovered file's format after writing it.
    pub validate_after_recovery: bool,
    /// Files larger than this are skipped; `None` for no limit.
    pub max_file_size_bytes: Option<u64>,
}

/// The safe defaults: rename on conflict, mark deleted files, separate live
/// and deleted, compute SHA-256, validate, no size limit.
pub open spec fn default_options() -> RecoveryOptions {
    RecoveryOptions {
        conflict_strategy: ConflictStrategy::Rename,
        mark_deleted_in_filename: true,
        separate_live_and_deleted: true,
        compute_sha256: true,
        validate_after_recovery: true,
        max_file_size_bytes: None,
    }
}

impl Default for RecoveryOptions {
    /// The safe defaults: rename on conflict, mark deleted files, separate
    /// live and deleted, compute SHA-256, validate, no size limit.
    fn default() -> (r: Self)
        ensures
            r == default_options(),
    {
        RecoveryOptions {
            conflict_strategy: ConflictStrategy::Rename,
            mark_deleted_in_filename: true,
            separate_live_and_deleted: true,
            compute_sha256: true,
            validate_after_recovery: true,
            max_file_size_bytes: None,
        }
    }
}

/// What to do when the output name is taken.
#[derive(Debug, Clone, Copy, PartialEq, Eq, Structural)]
pub enum ConflictStrategy {
    /// Number the new name: `foo.txt` becomes `foo (1).txt`.
    Rename,
    /// Replace the existing file.
    Overwrite,
    /// Leave it and record the file as skipped.
    Skip,
}

} // verus!
