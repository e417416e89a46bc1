use czkawka_dupes_to_symlinks::config::OriginalToKeep;
use czkawka_dupes_to_symlinks::entry::{confirm_hashes_match, FileEntry};
use czkawka_dupes_to_symlinks::errors::{run_failed, ResolveError};
use czkawka_dupes_to_symlinks::resolver::{plan_group, plan_group_errors, MemberFacts};

fn entry(path: &str, modified_date: i64, hash: &str) -> FileEntry {
    FileEntry {
        path: path.to_string(),
        modified_date,
        size: 4,
        hash: hash.to_string(),
    }
}

fn existing(canonical: &str, mtime_nanos: i128) -> MemberFacts {
    MemberFacts {
        exists: true,
        canonical: Some(canonical.to_string()),
        mtime_nanos: Some(mtime_nanos),
    }
}

fn absent() -> MemberFacts {
    MemberFacts {
        exists: false,
        canonical: None,
        mtime_nanos: None,
    }
}

fn roots() -> Vec<String> {
    vec!["/data".to_string()]
}

#[test]
fn newest_strategy_keeps_newest_and_replaces_the_rest() {
    // Group {A (newest), B, C}: A survives, B and C become links to A.
    let group = vec![
        entry("/data/a", 30, "h"),
        entry("/data/b", 20, "h"),
        entry("/data/c", 10, "h"),
    ];
    let facts = vec![
        existing("/data/a", 30_000_000_000),
        existing("/data/b", 20_000_000_000),
        existing("/data/c", 10_000_000_000),
    ];
    let plan = plan_group(&group, &facts, &roots(), OriginalToKeep::Newest);
    assert!(!plan.hash_mismatch);
    assert!(!plan.no_files_remain);
    assert_eq!(plan.missing, Vec::<usize>::new());
    assert_eq!(plan.violations, Vec::<usize>::new());
    assert_eq!(plan.original, Some(0));
    assert_eq!(plan.replacements, vec![1, 2]);
    let errs = plan_group_errors(&group, &facts, &roots(), &plan);
    assert_eq!(errs.len(), 0);
    assert!(!run_failed(&errs));
}

#[test]
fn hash_mismatch_aborts_group_with_one_error() {
    // Hashes "h1" vs "h2": zero mutations, one error naming both paths.
    let group = vec![entry("/data/a", 1, "h1"), entry("/data/b", 2, "h2")];
    let facts = vec![existing("/data/a", 1), existing("/data/b", 2)];
    assert!(!confirm_hashes_match(&group));
    let plan = plan_group(&group, &facts, &roots(), OriginalToKeep::First);
    assert!(plan.hash_mismatch);
    assert_eq!(plan.original, None);
    assert_eq!(plan.replacements, Vec::<usize>::new());
    let errs = plan_group_errors(&group, &facts, &roots(), &plan);
    assert_eq!(errs.len(), 1);
    match &errs[0] {
        ResolveError::HashMismatch { paths } => {
            assert_eq!(paths, &vec!["/data/a".to_string(), "/data/b".to_string()]);
        }
        other => panic!("expected a hash mismatch record, got {:?}", other),
    }
    assert!(run_failed(&errs));
}

#[test]
fn missing_member_leaves_single_survivor_untouched() {
    // B missing from disk: A alone exists, fewer than 2 allowed members,
    // so the group ends with a missing-files warning and no mutation.
    let group = vec![entry("/data/a", 1, "h"), entry("/data/b", 2, "h")];
    let facts = vec![existing("/data/a", 1), absent()];
    let plan = plan_group(&group, &facts, &roots(), OriginalToKeep::First);
    assert!(!plan.hash_mismatch);
    assert!(!plan.no_files_remain);
    assert_eq!(plan.missing, vec![1]);
    assert_eq!(plan.violations, Vec::<usize>::new());
    assert_eq!(plan.original, None);
    assert_eq!(plan.replacements, Vec::<usize>::new());
    let errs = plan_group_errors(&group, &facts, &roots(), &plan);
    assert_eq!(errs.len(), 1);
    match &errs[0] {
        ResolveError::MissingFiles { hash, paths } => {
            assert_eq!(hash, "h");
            assert_eq!(paths, &vec!["/data/b".to_string()]);
        }
        other => panic!("expected a missing-files record, got {:?}", other),
    }
}

#[test]
fn member_outside_roots_aborts_whole_group() {
    // B resolves outside every allowed root: the group is aborted entirely,
    // one violation record for B, and A stays untouched despite being valid.
    let group = vec![entry("/data/a", 1, "h"), entry("/elsewhere/b", 2, "h")];
    let facts = vec![existing("/data/a", 1), existing("/elsewhere/b", 2)];
    let plan = plan_group(&group, &facts, &roots(), OriginalToKeep::First);
    assert!(!plan.hash_mismatch);
    assert_eq!(plan.missing, Vec::<usize>::new());
    assert_eq!(plan.violations, vec![1]);
    assert_eq!(plan.original, None);
    assert_eq!(plan.replacements, Vec::<usize>::new());
    let errs = plan_group_errors(&group, &facts, &roots(), &plan);
    assert_eq!(errs.len(), 1);
    match &errs[0] {
        ResolveError::SandboxViolation { path, roots } => {
            assert_eq!(path, "/elsewhere/b");
            assert_eq!(roots, &vec!["/data".to_string()]);
        }
        other => panic!("expected a sandbox violation record, got {:?}", other),
    }
}

#[test]
fn unresolvable_member_aborts_whole_group() {
    // A member that exists but cannot be canonicalized fails closed too.
    let group = vec![entry("/data/a", 1, "h"), entry("/data/loop", 2, "h")];
    let facts = vec![
        existing("/data/a", 1),
        MemberFacts {
            exists: true,
            canonical: None,
            mtime_nanos: None,
        },
    ];
    let plan = plan_group(&group, &facts, &roots(), OriginalToKeep::First);
    assert_eq!(plan.violations, vec![1]);
    assert_eq!(plan.original, None);
    assert_eq!(plan.replacements, Vec::<usize>::new());
    let errs = plan_group_errors(&group, &facts, &roots(), &plan);
    assert_eq!(errs.len(), 1);
    match &errs[0] {
        ResolveError::PathUnresolvable { path } => assert_eq!(path, "/data/loop"),
        other => panic!("expected an unresolvable-path record, got {:?}", other),
    }
}

#[test]
fn all_members_missing_aborts_group() {
    let group = vec![entry("/data/a", 1, "h"), entry("/data/b", 2, "h")];
    let facts = vec![absent(), absent()];
    let plan = plan_group(&group, &facts, &roots(), OriginalToKeep::First);
    assert!(plan.no_files_remain);
    assert_eq!(plan.missing, vec![0, 1]);
    assert_eq!(plan.original, None);
    assert_eq!(plan.replacements, Vec::<usize>::new());
    let errs = plan_group_errors(&group, &facts, &roots(), &plan);
    assert_eq!(errs.len(), 2);
    assert!(matches!(&errs[0], ResolveError::MissingFiles { .. }));
    match &errs[1] {
        ResolveError::NoFilesRemain { hash } => assert_eq!(hash, "h"),
        other => panic!("expected a no-files record, got {:?}", other),
    }
}

#[test]
fn singleton_group_is_a_no_op() {
    let group = vec![entry("/data/a", 1, "h")];
    let facts = vec![existing("/data/a", 1)];
    let plan = plan_group(&group, &facts, &roots(), OriginalToKeep::Newest);
    assert!(!plan.hash_mismatch);
    assert!(!plan.no_files_remain);
    assert_eq!(plan.missing, Vec::<usize>::new());
    assert_eq!(plan.violations, Vec::<usize>::new());
    assert_eq!(plan.original, None);
    assert_eq!(plan.replacements, Vec::<usize>::new());
    let errs = plan_group_errors(&group, &facts, &roots(), &plan);
    assert_eq!(errs.len(), 0);
}

#[test]
fn missing_member_still_resolves_remaining_duplicates() {
    // Three members, one missing: the two that exist are still resolved,
    // and the missing one is reported.
    let group = vec![
        entry("/data/a", 1, "h"),
        entry("/data/b", 2, "h"),
        entry("/data/c", 3, "h"),
    ];
    let facts = vec![existing("/data/a", 1), absent(), existing("/data/c", 3)];
    let plan = plan_group(&group, &facts, &roots(), OriginalToKeep::First);
    assert_eq!(plan.missing, vec![1]);
    assert_eq!(plan.violations, Vec::<usize>::new());
    assert_eq!(plan.original, Some(0));
    assert_eq!(plan.replacements, vec![2]);
    let errs = plan_group_errors(&group, &facts, &roots(), &plan);
    assert_eq!(errs.len(), 1);
    assert!(matches!(&errs[0], ResolveError::MissingFiles { .. }));
}

#[test]
fn duplicate_path_of_survivor_is_not_replaced() {
    // A member listing the survivor's own path twice is skipped rather
    // than replaced by a link to itself.
    let group = vec![
        entry("/data/a", 1, "h"),
        entry("/data/a", 1, "h"),
        entry("/data/b", 2, "h"),
    ];
    let facts = vec![
        existing("/data/a", 1),
        existing("/data/a", 1),
        existing("/data/b", 2),
    ];
    let plan = plan_group(&group, &facts, &roots(), OriginalToKeep::First);
    assert_eq!(plan.original, Some(0));
    assert_eq!(plan.replacements, vec![2]);
}

#[test]
fn last_strategy_picks_final_member() {
    let group = vec![
        entry("/data/a", 1, "h"),
        entry("/data/b", 2, "h"),
        entry("/data/c", 3, "h"),
    ];
    let facts = vec![
        existing("/data/a", 1),
        existing("/data/b", 2),
        existing("/data/c", 3),
    ];
    let plan = plan_group(&group, &facts, &roots(), OriginalToKeep::Last);
    assert_eq!(plan.original, Some(2));
    assert_eq!(plan.replacements, vec![0, 1]);
}

#[test]
fn planning_is_deterministic() {
    let group = vec![
        entry("/data/a", 1, "h"),
        entry("/data/b", 2, "h"),
        entry("/data/c", 3, "h"),
    ];
    let facts = vec![
        existing("/data/a", 5),
        existing("/data/b", 5),
        existing("/data/c", 5),
    ];
    let first = plan_group(&group, &facts, &roots(), OriginalToKeep::Newest);
    let second = plan_group(&group, &facts, &roots(), OriginalToKeep::Newest);
    assert_eq!(first.hash_mismatch, second.hash_mismatch);
    assert_eq!(first.missing, second.missing);
    assert_eq!(first.no_files_remain, second.no_files_remain);
    assert_eq!(first.violations, second.violations);
    assert_eq!(first.original, second.original);
    assert_eq!(first.replacements, second.replacements);
    // Equal timestamps favor the earliest-positioned member.
    assert_eq!(first.original, Some(0));
}

#[test]
fn oldest_strategy_falls_back_to_scan_timestamp() {
    // No live timestamp for B: its recorded modified_date (scaled to
    // nanoseconds) is compared against A's live timestamp.
    let group = vec![entry("/data/a", 100, "h"), entry("/data/b", 5, "h")];
    let facts = vec![
        existing("/data/a", 100_000_000_000),
        MemberFacts {
            exists: true,
            canonical: Some("/data/b".to_string()),
            mtime_nanos: None,
        },
    ];
    let plan = plan_group(&group, &facts, &roots(), OriginalToKeep::Oldest);
    assert_eq!(plan.original, Some(1));
    assert_eq!(plan.replacements, vec![0]);
}
