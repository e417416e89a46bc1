//! Run configuration: the survivor-selection strategy and the normalized
//! arguments that bound what the engine may touch.

use vstd::prelude::*;

verus! {

/// How the canonical/original file is chosen inside a duplicate group.
#[derive(Clone, Copy, Debug, PartialEq, Eq, Structural)]
pub enum OriginalToKeep {
    /// Select the first entry encountered in the report (stable order).
    First,
    /// Select the last entry encountered in the report (stable order).
    Last,
    /// Keep the file with the oldest modification time.
    Oldest,
    /// Keep the file with the newest modification time.
    Newest,
}

/// Normalized arguments for one run, immutable for its duration.
///
/// `allow_roots` must hold canonicalized directory paths: every filesystem
/// mutation target must resolve under one of them or the group is refused.
#[derive(Debug)]
pub struct Args {
    /// Path to a JSON report file or a directory of report files.
    pub input_file_path: String,
    /// When enabled, every action is reported but the filesystem is left
    /// untouched.
    pub dry_run: bool,
    /// Strategy for picking the canonical file inside each duplicate group.
    pub original_to_keep: OriginalToKeep,
    /// Canonicalized directories that bound filesystem changes.
    pub allow_roots: Vec<String>,
}

} // verus!
