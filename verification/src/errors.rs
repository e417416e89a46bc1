//! The error taxonomy of a run, and the human-readable rendering of each
//! error record.

use vstd::prelude::*;
use vstd::string::StringExecFns;

verus! {

/// Everything that can go wrong while resolving duplicate groups.
///
/// Each record carries enough context (offending paths, configured roots,
/// the underlying I/O message) to be diagnosed independently.
#[derive(Debug)]
pub enum ResolveError {
    /// Group members disagree on their content hash; the group is aborted
    /// untouched.
    HashMismatch { paths: Vec<String> },
    /// Some group members are absent from disk; the group continues with
    /// the members that still exist.
    MissingFiles { hash: String, paths: Vec<String> },
    /// Every member of the group is absent from disk; the group is aborted.
    NoFilesRemain { hash: String },
    /// An existing member could not be canonicalized; the group is aborted.
    PathUnresolvable { path: String },
    /// An existing member resolves outside every allowed root; the group is
    /// aborted. Carries the configured roots for diagnostics.
    SandboxViolation { path: String, roots: Vec<String> },
    /// Staging a duplicate aside failed; only that member is skipped.
    BackupStageFailed { path: String, detail: String },
    /// Creating the symbolic link failed; the staged backup is restored.
    SymlinkCreateFailed { duplicate: String, original: String, detail: String },
    /// The replacement succeeded but the backup could not be deleted.
    BackupDiscardFailed { duplicate: String, backup: String, detail: String },
    /// Restoring the backup after a failed link also failed: the file is
    /// left at the backup-named location and needs manual recovery.
    BackupRestoreFailed { backup: String, detail: String },
}

/// The paths double-quoted and joined with commas.
pub open spec fn quoted_list(paths: Seq<String>, m: int) -> Seq<char>
    decreases m,
{
    if m <= 0 {
        Seq::empty()
    } else if m == 1 {
        "\""@ + paths[0]@ + "\""@
    } else {
        quoted_list(paths, m - 1) + ", \""@ + paths[m - 1]@ + "\""@
    }
}

/// The paths joined with commas.
pub open spec fn comma_list(paths: Seq<String>, m: int) -> Seq<char>
    decreases m,
{
    if m <= 0 {
        Seq::empty()
    } else if m == 1 {
        paths[0]@
    } else {
        comma_list(paths, m - 1) + ", "@ + paths[m - 1]@
    }
}

/// Renders [`quoted_list`].
pub fn quoted_list_string(paths: &Vec<String>) -> (r: String)
    ensures
        r@ == quoted_list(paths@, paths@.len() as int),
{
    let mut s = String::new();
    let mut i: usize = 0;
    while i < paths.len()
        invariant
            0 <= i <= paths@.len(),
            s@ == quoted_list(paths@, i as int),
        decreases paths.len() - i,
    {
        if i == 0 {
            s.append("\"");
        } else {
            s.append(", \"");
        }
        s.append(paths[i].as_str());
        s.append("\"");
        proof {
            assert(s@ =~= quoted_list(paths@, i + 1 as int));
        }
        i = i + 1;
    }
    s
}

/// Renders [`comma_list`].
pub fn comma_list_string(paths: &Vec<String>) -> (r: String)
    ensures
        r@ == comma_list(paths@, paths@.len() as int),
{
    let mut s = String::new();
    let mut i: usize = 0;
    while i < paths.len()
        invariant
            0 <= i <= paths@.len(),
            s@ == comma_list(paths@, i as int),
        decreases paths.len() - i,
    {
        if i > 0 {
            s.append(", ");
        }
        s.append(paths[i].as_str());
        proof {
            assert(s@ =~= comma_list(paths@, i + 1 as int));
        }
        i = i + 1;
    }
    s
}

/// The one-line diagnostic each record renders to.
pub open spec fn message_of(e: ResolveError) -> Seq<char> {
    match e {
        ResolveError::HashMismatch { paths } => "Hashes do not match for duplicate group: ["@
            + quoted_list(paths@, paths@.len() as int) + "]"@,
        ResolveError::MissingFiles { hash, paths } =>
            "Some files specified as duplicates do not exist:\n"@ + hash@ + "\n["@ + quoted_list(
            paths@,
            paths@.len() as int,
        ) + "]\nThe specified duplicates that do exist were replaced with symlinks."@,
        ResolveError::NoFilesRemain { hash } => "No files exist for duplicate group:\n"@ + hash@,
        ResolveError::PathUnresolvable { path } => "Failed to canonicalize path '"@ + path@
            + "'."@,
        ResolveError::SandboxViolation { path, roots } => "Path '"@ + path@
            + "' is outside the configured allow-root directories: "@ + comma_list(
            roots@,
            roots@.len() as int,
        ),
        ResolveError::BackupStageFailed { path, detail } => "Failed to stage duplicate file '"@
            + path@ + "' for replacement: "@ + detail@,
        ResolveError::SymlinkCreateFailed { duplicate, original, detail } =>
            "Failed to create symlink from '"@ + duplicate@ + "' to '"@ + original@ + "': "@
            + detail@,
        ResolveError::BackupDiscardFailed { duplicate, backup, detail } => "Symlinked '"@
            + duplicate@ + "' but failed to delete backup '"@ + backup@ + "': "@ + detail@,
        ResolveError::BackupRestoreFailed { backup, detail } =>
            "Also failed to restore original file from backup '"@ + backup@ + "': "@ + detail@,
    }
}

impl ResolveError {
    /// Renders the record as the human-readable line the run prints and
    /// collects.
    pub fn message(&self) -> (r: String)
        ensures
            r@ == message_of(*self),
    {
        match self {
            ResolveError::HashMismatch { paths } => {
                let mut s = String::from_str("Hashes do not match for duplicate group: [");
                let list = quoted_list_string(paths);
                s.append(list.as_str());
                s.append("]");
                proof {
                    assert(s@ =~= message_of(*self));
                }
                s
            },
            ResolveError::MissingFiles { hash, paths } => {
                let mut s = String::from_str(
                    "Some files specified as duplicates do not exist:\n",
                );
                s.append(hash.as_str());
                s.append("\n[");
                let list = quoted_list_string(paths);
                s.append(list.as_str());
                s.append(
                    "]\nThe specified duplicates that do exist were replaced with symlinks.",
                );
                proof {
                    assert(s@ =~= message_of(*self));
                }
                s
            },
            ResolveError::NoFilesRemain { hash } => {
                let mut s = String::from_str("No files exist for duplicate group:\n");
                s.append(hash.as_str());
                proof {
                    assert(s@ =~= message_of(*self));
                }
                s
            },
            ResolveError::PathUnresolvable { path } => {
                let mut s = String::from_str("Failed to canonicalize path '");
                s.append(path.as_str());
                s.append("'.");
                proof {
                    assert(s@ =~= message_of(*self));
                }
                s
            },
            ResolveError::SandboxViolation { path, roots } => {
                let mut s = String::from_str("Path '");
                s.append(path.as_str());
                s.append("' is outside the configured allow-root directories: ");
                let list = comma_list_string(roots);
                s.append(list.as_str());
                proof {
                    assert(s@ =~= message_of(*self));
                }
                s
            },
            ResolveError::BackupStageFailed { path, detail } => {
                let mut s = String::from_str("Failed to stage duplicate file '");
                s.append(path.as_str());
                s.append("' for replacement: ");
                s.append(detail.as_str());
                proof {
                    assert(s@ =~= message_of(*self));
                }
                s
            },
            ResolveError::SymlinkCreateFailed { duplicate, original, detail } => {
                let mut s = String::from_str("Failed to create symlink from '");
                s.append(duplicate.as_str());
                s.append("' to '");
                s.append(original.as_str());
                s.append("': ");
                s.append(detail.as_str());
                proof {
                    assert(s@ =~= message_of(*self));
                }
                s
            },
            ResolveError::BackupDiscardFailed { duplicate, backup, detail } => {
                let mut s = String::from_str("Symlinked '");
                s.append(duplicate.as_str());
                s.append("' but failed to delete backup '");
                s.append(backup.as_str());
                s.append("': ");
                s.append(detail.as_str());
                proof {
                    assert(s@ =~= message_of(*self));
                }
                s
            },
            ResolveError::BackupRestoreFailed { backup, detail } => {
                let mut s = String::from_str("Also failed to restore original file from backup '");
                s.append(backup.as_str());
                s.append("': ");
                s.append(detail.as_str());
                proof {
                    assert(s@ =~= message_of(*self));
                }
                s
            },
        }
    }
}

/// A run fails overall iff at least one error was collected, even though
/// many individual groups may have succeeded.
pub fn run_failed(errors: &Vec<ResolveError>) -> (r: bool)
    ensures
        r == (errors@.len() > 0),
{
    errors.len() > 0
}

/// The first `m` collected errors, one indented line each.
pub open spec fn error_lines(errors: Seq<ResolveError>, m: int) -> Seq<char>
    decreases m,
{
    if m <= 0 {
        Seq::empty()
    } else if m == 1 {
        "  - "@ + message_of(errors[0])
    } else {
        error_lines(errors, m - 1) + "\n"@ + "  - "@ + message_of(errors[m - 1])
    }
}

/// The terminal failure report: the error count and every collected
/// message.
pub open spec fn summary_of(errors: Seq<ResolveError>) -> Seq<char> {
    "Encountered "@ + crate::decimal::dec_digits(errors.len() as int) + " error(s):\n"@
        + error_lines(errors, errors.len() as int)
}

/// Renders [`summary_of`]: the single aggregated failure value a run ends
/// with when its error collection is non-empty.
pub fn summary_message(errors: &Vec<ResolveError>) -> (r: String)
    ensures
        r@ == summary_of(errors@),
{
    let mut s = String::from_str("Encountered ");
    let count = crate::decimal::usize_to_decimal(errors.len());
    s.append(count.as_str());
    s.append(" error(s):\n");
    let mut lines = String::new();
    let mut i: usize = 0;
    while i < errors.len()
        invariant
            0 <= i <= errors@.len(),
            lines@ == error_lines(errors@, i as int),
        decreases errors.len() - i,
    {
        if i > 0 {
            lines.append("\n");
        }
        lines.append("  - ");
        let msg = errors[i].message();
        lines.append(msg.as_str());
        proof {
            assert(lines@ =~= error_lines(errors@, i + 1 as int));
        }
        i = i + 1;
    }
    s.append(lines.as_str());
    proof {
        assert(s@ =~= summary_of(errors@));
    }
    s
}

} // verus!
