//! The per-file replacement transaction: stage the duplicate aside, create
//! the symbolic link, then discard the backup — or restore it on failure.
//!
//! The filesystem work itself (rename, link, delete) is performed by the
//! caller; [`FileTx`] is the state machine that decides which step comes
//! next and what each outcome means, so that the sequencing invariants —
//! rollback after a failed link, no mutation at all under dry-run — are
//! proved here once and hold for every driver.

use vstd::prelude::*;
use vstd::string::StringExecFns;
use crate::decimal::{dec_digits, u32_to_decimal};
use crate::errors::ResolveError;

verus! {

/// Where one file's replacement transaction stands.
#[derive(Clone, Copy, Debug, PartialEq, Eq, Structural)]
pub enum TxState {
    /// Nothing has happened yet.
    Planned,
    /// Dry-run: the intended action was reported; nothing was touched.
    DryRunReported,
    /// The duplicate was renamed aside to the backup path.
    Staged,
    /// The symbolic link exists; the backup is still present.
    Linked,
    /// Success: link created, backup deleted.
    Completed,
    /// The link was created but the backup could not be deleted.
    CompletedBackupLeft,
    /// Staging failed; the filesystem is unchanged.
    StageFailed,
    /// The link could not be created; the backup must be restored.
    LinkFailed,
    /// The failed replacement was undone: the file is back at its path.
    RolledBack,
    /// Link and restore both failed: the file sits at the backup path and
    /// needs manual recovery.
    Unrecoverable,
}

/// The next filesystem step a driver must perform.
#[derive(Clone, Copy, Debug, PartialEq, Eq, Structural)]
pub enum TxAction {
    /// Report the intended replacement; touch nothing.
    ReportDryRun,
    /// Rename the duplicate to a free backup name.
    StageBackup,
    /// Create the symbolic link at the duplicate's path.
    CreateLink,
    /// Delete the backup file.
    DiscardBackup,
    /// Rename the backup back to the duplicate's path.
    RestoreBackup,
    /// The transaction is over; there is nothing left to do.
    Finished,
}

/// The outcome of one performed action, fed back into the machine.
#[derive(Clone, Copy, Debug, PartialEq, Eq, Structural)]
pub enum TxEvent {
    Reported,
    StageOk,
    StageFail,
    LinkOk,
    LinkFail,
    DiscardOk,
    DiscardFail,
    RestoreOk,
    RestoreFail,
}

/// The action pending in each state.
pub open spec fn tx_next_action(state: TxState, dry_run: bool) -> TxAction {
    match state {
        TxState::Planned => if dry_run {
            TxAction::ReportDryRun
        } else {
            TxAction::StageBackup
        },
        TxState::Staged => TxAction::CreateLink,
        TxState::Linked => TxAction::DiscardBackup,
        TxState::LinkFailed => TxAction::RestoreBackup,
        _ => TxAction::Finished,
    }
}

/// The transition relation of the transaction.
pub open spec fn tx_step(state: TxState, ev: TxEvent) -> TxState {
    match (state, ev) {
        (TxState::Planned, TxEvent::Reported) => TxState::DryRunReported,
        (TxState::Planned, TxEvent::StageOk) => TxState::Staged,
        (TxState::Planned, TxEvent::StageFail) => TxState::StageFailed,
        (TxState::Staged, TxEvent::LinkOk) => TxState::Linked,
        (TxState::Staged, TxEvent::LinkFail) => TxState::LinkFailed,
        (TxState::Linked, TxEvent::DiscardOk) => TxState::Completed,
        (TxState::Linked, TxEvent::DiscardFail) => TxState::CompletedBackupLeft,
        (TxState::LinkFailed, TxEvent::RestoreOk) => TxState::RolledBack,
        (TxState::LinkFailed, TxEvent::RestoreFail) => TxState::Unrecoverable,
        _ => state,
    }
}

/// The events an action can come back with.
pub open spec fn tx_event_of(a: TxAction, ev: TxEvent) -> bool {
    match a {
        TxAction::ReportDryRun => ev == TxEvent::Reported,
        TxAction::StageBackup => ev == TxEvent::StageOk || ev == TxEvent::StageFail,
        TxAction::CreateLink => ev == TxEvent::LinkOk || ev == TxEvent::LinkFail,
        TxAction::DiscardBackup => ev == TxEvent::DiscardOk || ev == TxEvent::DiscardFail,
        TxAction::RestoreBackup => ev == TxEvent::RestoreOk || ev == TxEvent::RestoreFail,
        TxAction::Finished => false,
    }
}

/// The actions that change the filesystem.
pub open spec fn action_mutates(a: TxAction) -> bool {
    a == TxAction::StageBackup || a == TxAction::CreateLink || a == TxAction::DiscardBackup
        || a == TxAction::RestoreBackup
}

/// The transitions on which the machine hands an error record to the sink.
pub open spec fn tx_emits_error(state: TxState, ev: TxEvent) -> bool {
    ||| (state == TxState::Planned && ev == TxEvent::StageFail)
    ||| (state == TxState::Staged && ev == TxEvent::LinkFail)
    ||| (state == TxState::Linked && ev == TxEvent::DiscardFail)
    ||| (state == TxState::LinkFailed && ev == TxEvent::RestoreFail)
}

/// The states in which no further action is pending.
pub open spec fn tx_terminal(state: TxState) -> bool {
    ||| state == TxState::DryRunReported
    ||| state == TxState::Completed
    ||| state == TxState::CompletedBackupLeft
    ||| state == TxState::StageFailed
    ||| state == TxState::RolledBack
    ||| state == TxState::Unrecoverable
}

/// Rollback invariant: when link creation fails after staging, the machine's
/// one pending action is restoring the original file, and that restore ends
/// either rolled back in place or in an explicitly reported unrecoverable
/// state — a failed restore is never silent.
pub proof fn lemma_rollback_after_link_failure(dry_run: bool)
    ensures
        tx_step(TxState::Staged, TxEvent::LinkFail) == TxState::LinkFailed,
        tx_emits_error(TxState::Staged, TxEvent::LinkFail),
        tx_next_action(TxState::LinkFailed, dry_run) == TxAction::RestoreBackup,
        tx_step(TxState::LinkFailed, TxEvent::RestoreOk) == TxState::RolledBack,
        tx_terminal(TxState::RolledBack),
        tx_step(TxState::LinkFailed, TxEvent::RestoreFail) == TxState::Unrecoverable,
        tx_emits_error(TxState::LinkFailed, TxEvent::RestoreFail),
        tx_terminal(TxState::Unrecoverable),
{
}

/// Dry-run idempotence: from the start state, a dry-run transaction never
/// issues a mutating action, and every state it can reach does the same —
/// the filesystem is left untouched no matter how often it is re-run.
pub proof fn lemma_dry_run_never_mutates(state: TxState, ev: TxEvent)
    requires
        state == TxState::Planned || state == TxState::DryRunReported,
        tx_event_of(tx_next_action(state, true), ev),
    ensures
        !action_mutates(tx_next_action(state, true)),
        tx_step(state, ev) == TxState::Planned || tx_step(state, ev) == TxState::DryRunReported,
{
}

/// The name the duplicate is renamed to while being replaced: the original
/// path with the fixed backup marker appended, and, from the first collision
/// on, an incrementing numeric suffix.
pub open spec fn backup_name_of(path: Seq<char>, counter: int) -> Seq<char> {
    if counter == 0 {
        path + ".czkawka-bak"@
    } else {
        path + ".czkawka-bak-"@ + dec_digits(counter)
    }
}

/// Derives the candidate backup name for one probe. The driver starts at
/// counter zero and increments until it finds a name that is free.
pub fn backup_name(path: &String, counter: u32) -> (r: String)
    ensures
        r@ == backup_name_of(path@, counter as int),
{
    let mut s = path.clone();
    if counter == 0 {
        s.append(".czkawka-bak");
    } else {
        s.append(".czkawka-bak-");
        let digits = u32_to_decimal(counter);
        s.append(digits.as_str());
        proof {
            assert(s@ =~= backup_name_of(path@, counter as int));
        }
    }
    s
}

/// One file's replacement transaction: replace `duplicate` with a symbolic
/// link pointing at `original`, with a staged backup for rollback.
#[derive(Debug)]
pub struct FileTx {
    /// The path being replaced.
    pub duplicate: String,
    /// The path the symbolic link will point at.
    pub original: String,
    /// Where the duplicate was renamed to, once staged.
    pub backup: Option<String>,
    /// Where the transaction stands.
    pub state: TxState,
    /// Whether the run only reports what it would do.
    pub dry_run: bool,
}

impl FileTx {
    /// Whenever the backup can matter, its path is recorded.
    pub open spec fn wf(self) -> bool {
        &&& (self.state == TxState::Staged || self.state == TxState::Linked || self.state
            == TxState::LinkFailed || self.state == TxState::Unrecoverable || self.state
            == TxState::CompletedBackupLeft) ==> self.backup is Some
        &&& self.dry_run ==> (self.state == TxState::Planned || self.state
            == TxState::DryRunReported)
    }

    /// Starts a transaction for one duplicate.
    pub fn new(duplicate: String, original: String, dry_run: bool) -> (tx: FileTx)
        ensures
            tx.wf(),
            tx.state == TxState::Planned,
            tx.duplicate == duplicate,
            tx.original == original,
            tx.dry_run == dry_run,
            tx.backup is None,
    {
        FileTx { duplicate, original, backup: Option::None, state: TxState::Planned, dry_run }
    }

    /// The next step the driver must perform.
    pub fn next_action(&self) -> (a: TxAction)
        ensures
            a == tx_next_action(self.state, self.dry_run),
    {
        match self.state {
            TxState::Planned => if self.dry_run {
                TxAction::ReportDryRun
            } else {
                TxAction::StageBackup
            },
            TxState::Staged => TxAction::CreateLink,
            TxState::Linked => TxAction::DiscardBackup,
            TxState::LinkFailed => TxAction::RestoreBackup,
            _ => TxAction::Finished,
        }
    }

    /// Records that the intended replacement was reported under dry-run.
    pub fn on_reported(&mut self)
        requires
            old(self).wf(),
            old(self).state == TxState::Planned,
            old(self).dry_run,
        ensures
            final(self).wf(),
            final(self).state == tx_step(old(self).state, TxEvent::Reported),
            final(self).duplicate == old(self).duplicate,
            final(self).original == old(self).original,
            final(self).backup == old(self).backup,
            final(self).dry_run == old(self).dry_run,
    {
        self.state = TxState::DryRunReported;
    }

    /// Records the outcome of staging: `Ok` carries the backup path the
    /// duplicate was renamed to, `Err` the I/O message. A failed stage skips
    /// only this member and leaves the filesystem unchanged.
    pub fn on_stage_result(&mut self, result: Result<String, String>) -> (err: Option<
        ResolveError,
    >)
        requires
            old(self).wf(),
            old(self).state == TxState::Planned,
            !old(self).dry_run,
        ensures
            final(self).wf(),
            final(self).duplicate == old(self).duplicate,
            final(self).original == old(self).original,
            final(self).dry_run == old(self).dry_run,
            match result {
                Result::Ok(backup) => {
                    &&& final(self).state == tx_step(old(self).state, TxEvent::StageOk)
                    &&& final(self).backup == Option::Some(backup)
                    &&& err is None
                },
                Result::Err(detail) => {
                    &&& final(self).state == tx_step(old(self).state, TxEvent::StageFail)
                    &&& final(self).backup == old(self).backup
                    &&& err == Option::Some(
                        ResolveError::BackupStageFailed {
                            path: old(self).duplicate,
                            detail,
                        },
                    )
                },
            },
    {
        match result {
            Result::Ok(backup) => {
                self.backup = Option::Some(backup);
                self.state = TxState::Staged;
                Option::None
            },
            Result::Err(detail) => {
                self.state = TxState::StageFailed;
                Option::Some(
                    ResolveError::BackupStageFailed { path: self.duplicate.clone(), detail },
                )
            },
        }
    }

    /// Records the outcome of creating the symbolic link. On failure the
    /// transaction moves to restoring the staged backup.
    pub fn on_link_result(&mut self, result: Result<(), String>) -> (err: Option<ResolveError>)
        requires
            old(self).wf(),
            old(self).state == TxState::Staged,
        ensures
            final(self).wf(),
            final(self).duplicate == old(self).duplicate,
            final(self).original == old(self).original,
            final(self).backup == old(self).backup,
            final(self).dry_run == old(self).dry_run,
            match result {
                Result::Ok(u) => {
                    &&& final(self).state == tx_step(old(self).state, TxEvent::LinkOk)
                    &&& err is None
                },
                Result::Err(detail) => {
                    &&& final(self).state == tx_step(old(self).state, TxEvent::LinkFail)
                    &&& err == Option::Some(
                        ResolveError::SymlinkCreateFailed {
                            duplicate: old(self).duplicate,
                            original: old(self).original,
                            detail,
                        },
                    )
                },
            },
    {
        match result {
            Result::Ok(_) => {
                self.state = TxState::Linked;
                Option::None
            },
            Result::Err(detail) => {
                self.state = TxState::LinkFailed;
                Option::Some(
                    ResolveError::SymlinkCreateFailed {
                        duplicate: self.duplicate.clone(),
                        original: self.original.clone(),
                        detail,
                    },
                )
            },
        }
    }

    /// Records the outcome of deleting the backup after a successful link.
    /// A failed delete is a non-fatal warning: the replacement itself stands.
    pub fn on_discard_result(&mut self, result: Result<(), String>) -> (err: Option<ResolveError>)
        requires
            old(self).wf(),
            old(self).state == TxState::Linked,
        ensures
            final(self).wf(),
            final(self).duplicate == old(self).duplicate,
            final(self).original == old(self).original,
            final(self).backup == old(self).backup,
            final(self).dry_run == old(self).dry_run,
            match result {
                Result::Ok(u) => {
                    &&& final(self).state == tx_step(old(self).state, TxEvent::DiscardOk)
                    &&& err is None
                },
                Result::Err(detail) => {
                    &&& final(self).state == tx_step(old(self).state, TxEvent::DiscardFail)
                    &&& err == Option::Some(
                        ResolveError::BackupDiscardFailed {
                            duplicate: old(self).duplicate,
                            backup: old(self).backup->0,
                            detail,
                        },
                    )
                },
            },
    {
        match result {
            Result::Ok(_) => {
                self.state = TxState::Completed;
                Option::None
            },
            Result::Err(detail) => {
                self.state = TxState::CompletedBackupLeft;
                let backup = match &self.backup {
                    Option::Some(b) => b.clone(),
                    Option::None => String::new(),
                };
                Option::Some(
                    ResolveError::BackupDiscardFailed {
                        duplicate: self.duplicate.clone(),
                        backup,
                        detail,
                    },
                )
            },
        }
    }

    /// Records the outcome of restoring the backup after a failed link.
    /// A failed restore is the one condition the transaction cannot heal:
    /// it is always reported, never lost.
    pub fn on_restore_result(&mut self, result: Result<(), String>) -> (err: Option<ResolveError>)
        requires
            old(self).wf(),
            old(self).state == TxState::LinkFailed,
        ensures
            final(self).wf(),
            final(self).duplicate == old(self).duplicate,
            final(self).original == old(self).original,
            final(self).backup == old(self).backup,
            final(self).dry_run == old(self).dry_run,
            match result {
                Result::Ok(u) => {
                    &&& final(self).state == tx_step(old(self).state, TxEvent::RestoreOk)
                    &&& err is None
                },
                Result::Err(detail) => {
                    &&& final(self).state == tx_step(old(self).state, TxEvent::RestoreFail)
                    &&& err == Option::Some(
                        ResolveError::BackupRestoreFailed {
                            backup: old(self).backup->0,
                            detail,
                        },
                    )
                },
            },
    {
        match result {
            Result::Ok(_) => {
                self.state = TxState::RolledBack;
                Option::None
            },
            Result::Err(detail) => {
                self.state = TxState::Unrecoverable;
                let backup = match &self.backup {
                    Option::Some(b) => b.clone(),
                    Option::None => String::new(),
                };
                Option::Some(ResolveError::BackupRestoreFailed { backup, detail })
            },
        }
    }

    /// The progress line for a dry run.
    pub fn dry_run_message(&self) -> (r: String)
        ensures
            r@ == "[Dry Run] Would replace '"@ + self.duplicate@ + "' with symlink to '"@
                + self.original@ + "'"@,
    {
        let mut s = String::from_str("[Dry Run] Would replace '");
        s.append(self.duplicate.as_str());
        s.append("' with symlink to '");
        s.append(self.original.as_str());
        s.append("'");
        s
    }

    /// The progress line for a completed replacement.
    pub fn replaced_message(&self) -> (r: String)
        ensures
            r@ == "Replaced '"@ + self.duplicate@ + "' with symlink to '"@ + self.original@
                + "'"@,
    {
        let mut s = String::from_str("Replaced '");
        s.append(self.duplicate.as_str());
        s.append("' with symlink to '");
        s.append(self.original.as_str());
        s.append("'");
        s
    }
}

} // verus!
