//! Deterministic duplicate-group resolution: given duplicate-file reports
//! (groups of paths sharing one content hash) and a safety configuration,
//! decide which member of each group survives and plan the replacement of
//! every other member with a symbolic link to the survivor, with a
//! backup/rollback transaction around each mutation.
//!
//! The library itself performs no filesystem access. A caller gathers the
//! per-member facts (existence, canonical path, live timestamp), asks
//! [`resolver::plan_group`] for a plan, and drives each planned replacement
//! through the [`transaction::FileTx`] state machine, feeding every
//! filesystem outcome back in. The contracts guarantee that no plan ever
//! touches a group with inconsistent hashes, a path outside the sandbox, or
//! the chosen survivor itself, and that a failed link is always either
//! rolled back or reported as unrecoverable.

pub mod config;
pub mod decimal;
pub mod entry;
pub mod errors;
pub mod report;
pub mod resolver;
pub mod sandbox;
pub mod selector;
pub mod transaction;

pub use config::{Args, OriginalToKeep};
pub use entry::{confirm_hashes_match, FileEntry};
pub use errors::{run_failed, summary_message, ResolveError};
pub use report::{flatten_reports, DuplicateReport, SizeBucket};
pub use resolver::{plan_group, plan_group_errors, GroupPlan, MemberFacts};
pub use sandbox::ensure_path_within_roots;
pub use selector::choose_original_file;
pub use transaction::{backup_name, FileTx, TxAction, TxState};
