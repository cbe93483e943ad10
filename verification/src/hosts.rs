//! Undoing what was done to the hosts file: from its full backup where that is
//! possible, and else by removing the lines that the accelerator put there.
use vstd::prelude::*;
use crate::text::{joined, joined3, joined4, option_text};

verus! {

/// What is known of the backup of the hosts file.
#[derive(Clone, Copy, Debug, PartialEq, Eq, Structural)]
pub enum BackupState {
    /// The backup and its description are there.
    Ready,
    /// There is none.
    Missing,
    /// Only one of the two is there.
    Inconsistent,
}

/// How a task ended, if it was done.
pub enum Answer<S> {
    Unknown,
    Done,
    Failed(S),
}

impl View for Answer<String> {
    type V = Answer<Seq<char>>;

    open spec fn view(&self) -> Answer<Seq<char>> {
        match *self {
            Answer::Unknown => Answer::Unknown,
            Answer::Done => Answer::Done,
            Answer::Failed(error) => Answer::Failed(error@),
        }
    }
}

/// What is known so far: the state of the backup, and how each task ended.
pub struct HostsAnswers<S> {
    pub backup: Option<BackupState>,
    pub valid: Answer<S>,
    pub restored: Answer<S>,
    pub removed: Answer<S>,
    pub cleared: Answer<S>,
}

impl View for HostsAnswers<String> {
    type V = HostsAnswers<Seq<char>>;

    open spec fn view(&self) -> HostsAnswers<Seq<char>> {
        HostsAnswers {
            backup: self.backup,
            valid: self.valid@,
            restored: self.restored@,
            removed: self.removed@,
            cleared: self.cleared@,
        }
    }
}

impl HostsAnswers<String> {
    /// Nothing is known.
    pub fn new() -> (answers: HostsAnswers<String>)
        ensures
            answers@ == nothing_known(),
    {
        HostsAnswers {
            backup: None,
            valid: Answer::Unknown,
            restored: Answer::Unknown,
            removed: Answer::Unknown,
            cleared: Answer::Unknown,
        }
    }
}

/// Nothing is known.
pub open spec fn nothing_known() -> HostsAnswers<Seq<char>> {
    HostsAnswers {
        backup: None,
        valid: Answer::Unknown,
        restored: Answer::Unknown,
        removed: Answer::Unknown,
        cleared: Answer::Unknown,
    }
}

/// What can be done about the hosts file.
#[derive(Clone, Copy, Debug, PartialEq, Eq, Structural)]
pub enum HostsTask {
    /// Find out the state of the backup.
    ReadBackupState,
    /// Check that the backup can be used.
    Validate,
    /// Put the backup in the place of the hosts file.
    Restore,
    /// Remove the lines that the accelerator put into the hosts file.
    Remove,
    /// Remove what is left of a backup that cannot be used.
    Clear,
}

/// What to do next, or what came of it all: a message for the user, and a
/// warning if something is left undone.
pub enum HostsStep<S> {
    Ask(HostsTask),
    Finished { message: S, warning: Option<S> },
}

impl View for HostsStep<String> {
    type V = HostsStep<Seq<char>>;

    open spec fn view(&self) -> HostsStep<Seq<char>> {
        match *self {
            HostsStep::Ask(task) => HostsStep::Ask(task),
            HostsStep::Finished { message, warning } => HostsStep::Finished {
                message: message@,
                warning: option_text(warning),
            },
        }
    }
}

fn finished(message: &str, warning: Option<String>) -> (step: HostsStep<String>)
    ensures
        step@ == (HostsStep::<Seq<char>>::Finished {
            message: message@,
            warning: option_text(warning),
        }),
{
    HostsStep::Finished { message: message.to_owned(), warning }
}

/// The next step of a full cleanup.
pub open spec fn cleanup_step(a: HostsAnswers<Seq<char>>) -> HostsStep<Seq<char>> {
    match a.backup {
        None => HostsStep::Ask(HostsTask::ReadBackupState),
        Some(BackupState::Ready) => match a.valid {
            Answer::Unknown => HostsStep::Ask(HostsTask::Validate),
            Answer::Done => match a.restored {
                Answer::Unknown => HostsStep::Ask(HostsTask::Restore),
                Answer::Done => HostsStep::Finished { message: "恢复原始 hosts"@, warning: None },
                Answer::Failed(error) => match a.removed {
                    Answer::Unknown => HostsStep::Ask(HostsTask::Remove),
                    Answer::Done => HostsStep::Finished {
                        message: "清理托管 hosts 规则（完整恢复失败）"@,
                        warning: Some("failed to fully restore original hosts backup: "@ + error + "; cleanup fell back to removing the managed hosts block"@),
                    },
                    Answer::Failed(remove_error) => HostsStep::Finished {
                        message: "hosts 未清理"@,
                        warning: Some("failed to fully restore original hosts backup: "@ + error + "; fallback removal also failed: "@ + remove_error),
                    },
                },
            },
            Answer::Failed(validation_error) => match a.removed {
                Answer::Unknown => HostsStep::Ask(HostsTask::Remove),
                Answer::Done => match a.cleared {
                    Answer::Unknown => HostsStep::Ask(HostsTask::Clear),
                    Answer::Done => HostsStep::Finished { message: "清理托管 hosts 规则并重置损坏的备份状态"@, warning: None },
                    Answer::Failed(clear_error) => HostsStep::Finished {
                        message: "清理托管 hosts 规则（备份损坏）"@,
                        warning: Some("hosts backup is invalid: "@ + validation_error + "; managed hosts block was removed but clearing stale backup artifacts failed: "@ + clear_error),
                    },
                },
                Answer::Failed(remove_error) => HostsStep::Finished {
                    message: "hosts 未清理"@,
                    warning: Some("hosts backup is invalid: "@ + validation_error + "; fallback removal failed: "@ + remove_error),
                },
            },
        },
        Some(BackupState::Missing) => match a.removed {
            Answer::Unknown => HostsStep::Ask(HostsTask::Remove),
            Answer::Done => HostsStep::Finished { message: "清理托管 hosts 规则"@, warning: None },
            Answer::Failed(error) => HostsStep::Finished {
                message: "hosts 未清理"@,
                warning: Some("failed to clean managed hosts block: "@ + error),
            },
        },
        Some(BackupState::Inconsistent) => match a.removed {
            Answer::Unknown => HostsStep::Ask(HostsTask::Remove),
            Answer::Done => match a.cleared {
                Answer::Unknown => HostsStep::Ask(HostsTask::Clear),
                Answer::Done => HostsStep::Finished { message: "清理托管 hosts 规则并重置异常备份状态"@, warning: None },
                Answer::Failed(clear_error) => HostsStep::Finished {
                    message: "清理托管 hosts 规则（备份状态异常）"@,
                    warning: Some("hosts backup state is inconsistent; managed hosts block was removed but clearing stale backup artifacts failed: "@ + clear_error),
                },
            },
            Answer::Failed(error) => HostsStep::Finished {
                message: "hosts 未清理"@,
                warning: Some("hosts backup state is inconsistent; fallback removal failed: "@ + error),
            },
        },
    }
}

/// The next step of a full cleanup.
pub fn cleanup_hosts_state(a: &HostsAnswers<String>) -> (step: HostsStep<String>)
    ensures
        step@ == cleanup_step(a@),
{
    match a.backup {
        None => HostsStep::Ask(HostsTask::ReadBackupState),
        Some(BackupState::Ready) => match &a.valid {
            Answer::Unknown => HostsStep::Ask(HostsTask::Validate),
            Answer::Done => match &a.restored {
                Answer::Unknown => HostsStep::Ask(HostsTask::Restore),
                Answer::Done => finished("恢复原始 hosts", None),
                Answer::Failed(error) => match &a.removed {
                    Answer::Unknown => HostsStep::Ask(HostsTask::Remove),
                    Answer::Done => finished(
                        "清理托管 hosts 规则（完整恢复失败）",
                        Some(joined3("failed to fully restore original hosts backup: ", error.as_str(), "; cleanup fell back to removing the managed hosts block")),
                    ),
                    Answer::Failed(remove_error) => finished(
                        "hosts 未清理",
                        Some(joined4("failed to fully restore original hosts backup: ", error.as_str(), "; fallback removal also failed: ", remove_error.as_str())),
                    ),
                },
            },
            Answer::Failed(validation_error) => match &a.removed {
                Answer::Unknown => HostsStep::Ask(HostsTask::Remove),
                Answer::Done => match &a.cleared {
                    Answer::Unknown => HostsStep::Ask(HostsTask::Clear),
                    Answer::Done => finished("清理托管 hosts 规则并重置损坏的备份状态", None),
                    Answer::Failed(clear_error) => finished(
                        "清理托管 hosts 规则（备份损坏）",
                        Some(joined4("hosts backup is invalid: ", validation_error.as_str(), "; managed hosts block was removed but clearing stale backup artifacts failed: ", clear_error.as_str())),
                    ),
                },
                Answer::Failed(remove_error) => finished(
                    "hosts 未清理",
                    Some(joined4("hosts backup is invalid: ", validation_error.as_str(), "; fallback removal failed: ", remove_error.as_str())),
                ),
            },
        },
        Some(BackupState::Missing) => match &a.removed {
            Answer::Unknown => HostsStep::Ask(HostsTask::Remove),
            Answer::Done => finished("清理托管 hosts 规则", None),
            Answer::Failed(error) => finished(
                "hosts 未清理",
                Some(joined("failed to clean managed hosts block: ", error.as_str())),
            ),
        },
        Some(BackupState::Inconsistent) => match &a.removed {
            Answer::Unknown => HostsStep::Ask(HostsTask::Remove),
            Answer::Done => match &a.cleared {
                Answer::Unknown => HostsStep::Ask(HostsTask::Clear),
                Answer::Done => finished("清理托管 hosts 规则并重置异常备份状态", None),
                Answer::Failed(clear_error) => finished(
                    "清理托管 hosts 规则（备份状态异常）",
                    Some(joined("hosts backup state is inconsistent; managed hosts block was removed but clearing stale backup artifacts failed: ", clear_error.as_str())),
                ),
            },
            Answer::Failed(error) => finished(
                "hosts 未清理",
                Some(joined("hosts backup state is inconsistent; fallback removal failed: ", error.as_str())),
            ),
        },
    }
}

/// The next step after the service was stopped.
pub open spec fn restore_step(a: HostsAnswers<Seq<char>>) -> HostsStep<Seq<char>> {
    match a.backup {
        None => HostsStep::Ask(HostsTask::ReadBackupState),
        Some(BackupState::Ready) => match a.valid {
            Answer::Unknown => HostsStep::Ask(HostsTask::Validate),
            Answer::Done => match a.restored {
                Answer::Unknown => HostsStep::Ask(HostsTask::Restore),
                Answer::Done => HostsStep::Finished { message: "hosts 已恢复为备份"@, warning: None },
                Answer::Failed(error) => match a.removed {
                    Answer::Unknown => HostsStep::Ask(HostsTask::Remove),
                    Answer::Done => HostsStep::Finished {
                        message: "hosts 备份恢复失败，已退化为仅清理托管 hosts 规则"@,
                        warning: Some("failed to restore original hosts backup while stopping: "@ + error + "; fallback removal cleaned the managed hosts block"@),
                    },
                    Answer::Failed(remove_error) => HostsStep::Finished {
                        message: "hosts 未恢复"@,
                        warning: Some("failed to restore original hosts backup while stopping: "@ + error + "; fallback removal also failed: "@ + remove_error),
                    },
                },
            },
            Answer::Failed(validation_error) => match a.removed {
                Answer::Unknown => HostsStep::Ask(HostsTask::Remove),
                Answer::Done => HostsStep::Finished {
                    message: "hosts 备份异常，已退化为仅清理托管 hosts 规则"@,
                    warning: Some("hosts backup is invalid while stopping: "@ + validation_error + "; managed hosts block was removed instead"@),
                },
                Answer::Failed(remove_error) => HostsStep::Finished {
                    message: "hosts 未恢复"@,
                    warning: Some("hosts backup is invalid while stopping: "@ + validation_error + "; fallback removal failed: "@ + remove_error),
                },
            },
        },
        Some(BackupState::Missing) => match a.removed {
            Answer::Unknown => HostsStep::Ask(HostsTask::Remove),
            Answer::Done => HostsStep::Finished { message: "已清理托管 hosts 规则"@, warning: None },
            Answer::Failed(error) => HostsStep::Finished {
                message: "hosts 未恢复"@,
                warning: Some("failed to clean managed hosts block while stopping: "@ + error),
            },
        },
        Some(BackupState::Inconsistent) => match a.removed {
            Answer::Unknown => HostsStep::Ask(HostsTask::Remove),
            Answer::Done => HostsStep::Finished {
                message: "hosts 备份状态异常，已退化为仅清理托管 hosts 规则"@,
                warning: Some("hosts backup state is inconsistent while stopping; removed only the managed hosts block"@),
            },
            Answer::Failed(error) => HostsStep::Finished {
                message: "hosts 未恢复"@,
                warning: Some("hosts backup state is inconsistent while stopping; fallback removal failed: "@ + error),
            },
        },
    }
}

/// The next step after the service was stopped.
pub fn restore_hosts_after_stop(a: &HostsAnswers<String>) -> (step: HostsStep<String>)
    ensures
        step@ == restore_step(a@),
{
    match a.backup {
        None => HostsStep::Ask(HostsTask::ReadBackupState),
        Some(BackupState::Ready) => match &a.valid {
            Answer::Unknown => HostsStep::Ask(HostsTask::Validate),
            Answer::Done => match &a.restored {
                Answer::Unknown => HostsStep::Ask(HostsTask::Restore),
                Answer::Done => finished("hosts 已恢复为备份", None),
                Answer::Failed(error) => match &a.removed {
                    Answer::Unknown => HostsStep::Ask(HostsTask::Remove),
                    Answer::Done => finished(
                        "hosts 备份恢复失败，已退化为仅清理托管 hosts 规则",
                        Some(joined3("failed to restore original hosts backup while stopping: ", error.as_str(), "; fallback removal cleaned the managed hosts block")),
                    ),
                    Answer::Failed(remove_error) => finished(
                        "hosts 未恢复",
                        Some(joined4("failed to restore original hosts backup while stopping: ", error.as_str(), "; fallback removal also failed: ", remove_error.as_str())),
                    ),
                },
            },
            Answer::Failed(validation_error) => match &a.removed {
                Answer::Unknown => HostsStep::Ask(HostsTask::Remove),
                Answer::Done => finished(
                    "hosts 备份异常，已退化为仅清理托管 hosts 规则",
                    Some(joined3("hosts backup is invalid while stopping: ", validation_error.as_str(), "; managed hosts block was removed instead")),
                ),
                Answer::Failed(remove_error) => finished(
                    "hosts 未恢复",
                    Some(joined4("hosts backup is invalid while stopping: ", validation_error.as_str(), "; fallback removal failed: ", remove_error.as_str())),
                ),
            },
        },
        Some(BackupState::Missing) => match &a.removed {
            Answer::Unknown => HostsStep::Ask(HostsTask::Remove),
            Answer::Done => finished("已清理托管 hosts 规则", None),
            Answer::Failed(error) => finished(
                "hosts 未恢复",
                Some(joined("failed to clean managed hosts block while stopping: ", error.as_str())),
            ),
        },
        Some(BackupState::Inconsistent) => match &a.removed {
            Answer::Unknown => HostsStep::Ask(HostsTask::Remove),
            Answer::Done => finished(
                "hosts 备份状态异常，已退化为仅清理托管 hosts 规则",
                Some("hosts backup state is inconsistent while stopping; removed only the managed hosts block".to_owned()),
            ),
            Answer::Failed(error) => finished(
                "hosts 未恢复",
                Some(joined("hosts backup state is inconsistent while stopping; fallback removal failed: ", error.as_str())),
            ),
        },
    }
}

// ---------------------------------------------------------------------------
// Laws
// ---------------------------------------------------------------------------
/// The full backup cannot be used: it is missing, inconsistent or invalid, or
/// putting it back failed.
pub open spec fn backup_unusable(a: HostsAnswers<Seq<char>>) -> bool {
    match a.backup {
        None => false,
        Some(BackupState::Ready) => a.valid is Failed || (a.valid is Done && a.restored is Failed),
        Some(_) => true,
    }
}

/// The backup is there, but is of no use.
pub open spec fn backup_broken(a: HostsAnswers<Seq<char>>) -> bool {
    a.backup == Some(BackupState::Inconsistent) || (a.backup == Some(BackupState::Ready) && a.valid
        is Failed)
}

/// The full backup comes first: where it is there and valid it is put back,
/// and if that works nothing else is done and nothing is left to warn of.
pub proof fn the_full_backup_comes_first(a: HostsAnswers<Seq<char>>)
    requires
        a.backup == Some(BackupState::Ready),
        a.valid is Done,
    ensures
        a.restored is Unknown ==> cleanup_step(a) == HostsStep::<Seq<char>>::Ask(
            HostsTask::Restore,
        ) && restore_step(a) == HostsStep::<Seq<char>>::Ask(HostsTask::Restore),
        a.restored is Done ==> (cleanup_step(a) matches HostsStep::Finished { message: _, warning: w }
            && w is None) && (restore_step(a) matches HostsStep::Finished {
            message: _,
            warning: w,
        } && w is None),
{
}

/// A backup is never put back before it was found valid.
pub proof fn only_a_valid_backup_is_restored(a: HostsAnswers<Seq<char>>)
    ensures
        cleanup_step(a) == HostsStep::<Seq<char>>::Ask(HostsTask::Restore) || restore_step(a)
            == HostsStep::<Seq<char>>::Ask(HostsTask::Restore) ==> a.backup == Some(
            BackupState::Ready,
        ) && a.valid is Done,
{
}

/// Where the full backup cannot be used, the lines of the accelerator are
/// removed instead; and they are removed only then.
pub proof fn removal_is_the_fallback(a: HostsAnswers<Seq<char>>)
    ensures
        backup_unusable(a) && a.removed is Unknown <==> cleanup_step(a) == HostsStep::<
            Seq<char>,
        >::Ask(HostsTask::Remove),
        backup_unusable(a) && a.removed is Unknown <==> restore_step(a) == HostsStep::<
            Seq<char>,
        >::Ask(HostsTask::Remove),
{
}

/// A full cleanup also clears a backup that is there but of no use, once the
/// lines of the accelerator are removed. Stopping the service clears none.
pub proof fn a_broken_backup_is_cleared(a: HostsAnswers<Seq<char>>)
    ensures
        cleanup_step(a) == HostsStep::<Seq<char>>::Ask(HostsTask::Clear) <==> backup_broken(a)
            && a.removed is Done && a.cleared is Unknown,
        restore_step(a) != HostsStep::<Seq<char>>::Ask(HostsTask::Clear),
{
}

/// If there is nothing to warn of, the hosts file is clean: the backup is back,
/// or the lines of the accelerator are gone.
pub proof fn no_warning_means_clean(a: HostsAnswers<Seq<char>>)
    ensures
        cleanup_step(a) matches HostsStep::Finished { message: _, warning: w } ==> w is None
            ==> a.restored is Done || a.removed is Done,
        restore_step(a) matches HostsStep::Finished { message: _, warning: w } ==> w is None
            ==> a.restored is Done || a.removed is Done,
{
}

/// The task was not done yet.
pub open spec fn open_task(a: HostsAnswers<Seq<char>>, task: HostsTask) -> bool {
    match task {
        HostsTask::ReadBackupState => a.backup is None,
        HostsTask::Validate => a.valid is Unknown,
        HostsTask::Restore => a.restored is Unknown,
        HostsTask::Remove => a.removed is Unknown,
        HostsTask::Clear => a.cleared is Unknown,
    }
}

/// No task is done twice, so that both ways come to an end.
pub proof fn no_task_is_done_twice(a: HostsAnswers<Seq<char>>, task: HostsTask)
    requires
        cleanup_step(a) == HostsStep::<Seq<char>>::Ask(task) || restore_step(a) == HostsStep::<
            Seq<char>,
        >::Ask(task),
    ensures
        open_task(a, task),
{
}

} // verus!
