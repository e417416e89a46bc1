use czkawka_dupes_to_symlinks::config::OriginalToKeep;
use czkawka_dupes_to_symlinks::entry::FileEntry;
use czkawka_dupes_to_symlinks::errors::ResolveError;
use czkawka_dupes_to_symlinks::resolver::{plan_group, MemberFacts};
use czkawka_dupes_to_symlinks::transaction::{backup_name, FileTx, TxAction, TxState};

fn tx(dry_run: bool) -> FileTx {
    FileTx::new("/data/dup".to_string(), "/data/orig".to_string(), dry_run)
}

#[test]
fn successful_replacement_stages_links_and_discards() {
    let mut t = tx(false);
    assert_eq!(t.next_action(), TxAction::StageBackup);
    let err = t.on_stage_result(Ok("/data/dup.czkawka-bak".to_string()));
    assert!(err.is_none());
    assert_eq!(t.state, TxState::Staged);
    assert_eq!(t.backup, Some("/data/dup.czkawka-bak".to_string()));
    assert_eq!(t.next_action(), TxAction::CreateLink);
    let err = t.on_link_result(Ok(()));
    assert!(err.is_none());
    assert_eq!(t.next_action(), TxAction::DiscardBackup);
    let err = t.on_discard_result(Ok(()));
    assert!(err.is_none());
    assert_eq!(t.state, TxState::Completed);
    assert_eq!(t.next_action(), TxAction::Finished);
    assert_eq!(
        t.replaced_message(),
        "Replaced '/data/dup' with symlink to '/data/orig'"
    );
}

#[test]
fn failed_link_restores_the_original_file() {
    // Symlink creation fails after successful staging: the machine demands
    // a restore, reports the link failure, and ends rolled back; other
    // transactions are unaffected.
    let mut t = tx(false);
    t.on_stage_result(Ok("/data/dup.czkawka-bak".to_string()));
    let err = t.on_link_result(Err("permission denied".to_string()));
    match err {
        Some(ResolveError::SymlinkCreateFailed {
            duplicate,
            original,
            detail,
        }) => {
            assert_eq!(duplicate, "/data/dup");
            assert_eq!(original, "/data/orig");
            assert_eq!(detail, "permission denied");
        }
        other => panic!("expected a symlink failure record, got {:?}", other),
    }
    assert_eq!(t.state, TxState::LinkFailed);
    assert_eq!(t.next_action(), TxAction::RestoreBackup);
    let err = t.on_restore_result(Ok(()));
    assert!(err.is_none());
    assert_eq!(t.state, TxState::RolledBack);
    assert_eq!(t.next_action(), TxAction::Finished);

    let mut sibling = tx(false);
    assert_eq!(sibling.next_action(), TxAction::StageBackup);
    sibling.on_stage_result(Ok("/data/dup.czkawka-bak".to_string()));
    assert_eq!(sibling.state, TxState::Staged);
}

#[test]
fn failed_restore_is_reported_as_unrecoverable() {
    let mut t = tx(false);
    t.on_stage_result(Ok("/data/dup.czkawka-bak".to_string()));
    t.on_link_result(Err("permission denied".to_string()));
    let err = t.on_restore_result(Err("device gone".to_string()));
    match err {
        Some(ResolveError::BackupRestoreFailed { backup, detail }) => {
            assert_eq!(backup, "/data/dup.czkawka-bak");
            assert_eq!(detail, "device gone");
        }
        other => panic!("expected a restore failure record, got {:?}", other),
    }
    assert_eq!(t.state, TxState::Unrecoverable);
    assert_eq!(t.next_action(), TxAction::Finished);
}

#[test]
fn failed_stage_skips_only_this_member() {
    let mut t = tx(false);
    let err = t.on_stage_result(Err("read-only filesystem".to_string()));
    match err {
        Some(ResolveError::BackupStageFailed { path, detail }) => {
            assert_eq!(path, "/data/dup");
            assert_eq!(detail, "read-only filesystem");
        }
        other => panic!("expected a stage failure record, got {:?}", other),
    }
    assert_eq!(t.state, TxState::StageFailed);
    assert_eq!(t.next_action(), TxAction::Finished);
}

#[test]
fn failed_discard_is_a_warning_after_success() {
    let mut t = tx(false);
    t.on_stage_result(Ok("/data/dup.czkawka-bak".to_string()));
    t.on_link_result(Ok(()));
    let err = t.on_discard_result(Err("busy".to_string()));
    match err {
        Some(ResolveError::BackupDiscardFailed {
            duplicate,
            backup,
            detail,
        }) => {
            assert_eq!(duplicate, "/data/dup");
            assert_eq!(backup, "/data/dup.czkawka-bak");
            assert_eq!(detail, "busy");
        }
        other => panic!("expected a discard failure record, got {:?}", other),
    }
    assert_eq!(t.state, TxState::CompletedBackupLeft);
    assert_eq!(t.next_action(), TxAction::Finished);
}

#[test]
fn dry_run_reports_and_never_mutates() {
    // A dry-run transaction only ever reports: its one action is the
    // report, after which nothing is pending, however often it is polled.
    let mut t = tx(true);
    assert_eq!(t.next_action(), TxAction::ReportDryRun);
    assert_eq!(
        t.dry_run_message(),
        "[Dry Run] Would replace '/data/dup' with symlink to '/data/orig'"
    );
    t.on_reported();
    assert_eq!(t.state, TxState::DryRunReported);
    assert_eq!(t.next_action(), TxAction::Finished);
    assert_eq!(t.next_action(), TxAction::Finished);
    assert_eq!(t.backup, None);
}

#[test]
fn whole_group_resolution_replaces_every_non_survivor() {
    // Plan a three-member group, then drive both planned replacements
    // through their transactions with successful outcomes: the survivor is
    // never staged or linked over, and each other member completes.
    let group: Vec<FileEntry> = ["/data/a", "/data/b", "/data/c"]
        .iter()
        .map(|p| FileEntry {
            path: p.to_string(),
            modified_date: 1,
            size: 4,
            hash: "h".to_string(),
        })
        .collect();
    let facts: Vec<MemberFacts> = group
        .iter()
        .map(|e| MemberFacts {
            exists: true,
            canonical: Some(e.path.clone()),
            mtime_nanos: Some(1_000_000_000),
        })
        .collect();
    let roots = vec!["/data".to_string()];
    let plan = plan_group(&group, &facts, &roots, OriginalToKeep::Newest);
    // Equal timestamps: the earliest member survives.
    assert_eq!(plan.original, Some(0));
    assert_eq!(plan.replacements, vec![1, 2]);

    let survivor = group[0].path.clone();
    for &index in &plan.replacements {
        assert_ne!(group[index].path, survivor);
        let mut t = FileTx::new(group[index].path.clone(), survivor.clone(), false);
        let backup = backup_name(&group[index].path, 0);
        assert!(t.on_stage_result(Ok(backup)).is_none());
        assert!(t.on_link_result(Ok(())).is_none());
        assert!(t.on_discard_result(Ok(())).is_none());
        assert_eq!(t.state, TxState::Completed);
    }
}

#[test]
fn backup_names_probe_with_numeric_suffixes() {
    let path = "/data/dup.bin".to_string();
    assert_eq!(backup_name(&path, 0), "/data/dup.bin.czkawka-bak");
    assert_eq!(backup_name(&path, 1), "/data/dup.bin.czkawka-bak-1");
    assert_eq!(backup_name(&path, 12), "/data/dup.bin.czkawka-bak-12");
    assert_eq!(backup_name(&path, 305), "/data/dup.bin.czkawka-bak-305");
}
