//! What is done about the hosts file and what the user is told, in every situation.
use vstd::prelude::*;
use crate::hosts::{
    cleanup_step, nothing_known, restore_step, Answer, BackupState, HostsAnswers, HostsStep,
    HostsTask,
};

verus! {

/// All is done, and the user is told so with this message and this warning.
pub open spec fn told(
    step: HostsStep<Seq<char>>,
    message: Seq<char>,
    warning: Option<Seq<char>>,
) -> bool {
    step == HostsStep::<Seq<char>>::Finished { message, warning }
}

/// The first thing is to look for the backup.
pub proof fn the_backup_is_looked_for_first(a: HostsAnswers<Seq<char>>)
    ensures
        a.backup is None ==> cleanup_step(a) == HostsStep::<Seq<char>>::Ask(
            HostsTask::ReadBackupState,
        ),
        a.backup is None ==> restore_step(a) == HostsStep::<Seq<char>>::Ask(
            HostsTask::ReadBackupState,
        ),
        nothing_known().backup is None,
        nothing_known().valid is Unknown,
        nothing_known().restored is Unknown,
        nothing_known().removed is Unknown,
        nothing_known().cleared is Unknown,
{
}

/// A backup that is there is checked before anything is changed.
pub proof fn a_backup_is_checked_first(a: HostsAnswers<Seq<char>>)
    requires
        a.backup == Some(BackupState::Ready),
        a.valid is Unknown,
    ensures
        cleanup_step(a) == HostsStep::<Seq<char>>::Ask(HostsTask::Validate),
        restore_step(a) == HostsStep::<Seq<char>>::Ask(HostsTask::Validate),
{
}

/// A backup that was put back is told of, and there is nothing to warn of.
pub proof fn a_restored_file_is_told_of(a: HostsAnswers<Seq<char>>)
    requires
        a.backup == Some(BackupState::Ready),
        a.valid is Done,
        a.restored is Done,
    ensures
        told(cleanup_step(a), "恢复原始 hosts"@, None),
        told(restore_step(a), "hosts 已恢复为备份"@, None),
{
}

/// If putting the backup back failed, the user is warned with the error, and told whether
/// at least the lines are gone, with that error if not.
pub proof fn a_failed_restore_is_told_of(
    a: HostsAnswers<Seq<char>>,
    error: Seq<char>,
    remove_error: Seq<char>,
)
    requires
        a.backup == Some(BackupState::Ready),
        a.valid is Done,
        a.restored == Answer::Failed(error),
    ensures
        a.removed is Done ==> told(
            cleanup_step(a),
            "清理托管 hosts 规则（完整恢复失败）"@,
            Some(
                "failed to fully restore original hosts backup: "@ + error
                    + "; cleanup fell back to removing the managed hosts block"@,
            ),
        ),
        a.removed == Answer::Failed(remove_error) ==> told(
            cleanup_step(a),
            "hosts 未清理"@,
            Some(
                "failed to fully restore original hosts backup: "@ + error
                    + "; fallback removal also failed: "@ + remove_error,
            ),
        ),
        a.removed is Done ==> told(
            restore_step(a),
            "hosts 备份恢复失败，已退化为仅清理托管 hosts 规则"@,
            Some(
                "failed to restore original hosts backup while stopping: "@ + error
                    + "; fallback removal cleaned the managed hosts block"@,
            ),
        ),
        a.removed == Answer::Failed(remove_error) ==> told(
            restore_step(a),
            "hosts 未恢复"@,
            Some(
                "failed to restore original hosts backup while stopping: "@ + error
                    + "; fallback removal also failed: "@ + remove_error,
            ),
        ),
{
}

/// After a full cleanup a backup that was invalid is told of: without a warning if it was
/// cleared, and else with every error that there was.
pub proof fn an_invalid_backup_is_told_of(
    a: HostsAnswers<Seq<char>>,
    error: Seq<char>,
    next_error: Seq<char>,
)
    requires
        a.backup == Some(BackupState::Ready),
        a.valid == Answer::Failed(error),
    ensures
        a.removed == Answer::Failed(next_error) ==> told(
            cleanup_step(a),
            "hosts 未清理"@,
            Some(
                "hosts backup is invalid: "@ + error + "; fallback removal failed: "@ + next_error,
            ),
        ),
        a.removed is Done && a.cleared is Done ==> told(
            cleanup_step(a),
            "清理托管 hosts 规则并重置损坏的备份状态"@,
            None,
        ),
        a.removed is Done && a.cleared == Answer::Failed(next_error) ==> told(
            cleanup_step(a),
            "清理托管 hosts 规则（备份损坏）"@,
            Some(
                "hosts backup is invalid: "@ + error
                    + "; managed hosts block was removed but clearing stale backup artifacts failed: "@
                    + next_error,
            ),
        ),
{
}

/// After the service was stopped a backup that was invalid is always warned of, with its
/// error.
pub proof fn an_invalid_backup_is_warned_of(
    a: HostsAnswers<Seq<char>>,
    error: Seq<char>,
    remove_error: Seq<char>,
)
    requires
        a.backup == Some(BackupState::Ready),
        a.valid == Answer::Failed(error),
    ensures
        a.removed is Done ==> told(
            restore_step(a),
            "hosts 备份异常，已退化为仅清理托管 hosts 规则"@,
            Some(
                "hosts backup is invalid while stopping: "@ + error
                    + "; managed hosts block was removed instead"@,
            ),
        ),
        a.removed == Answer::Failed(remove_error) ==> told(
            restore_step(a),
            "hosts 未恢复"@,
            Some(
                "hosts backup is invalid while stopping: "@ + error
                    + "; fallback removal failed: "@ + remove_error,
            ),
        ),
{
}

/// Without a backup the lines are removed, and that is told of, with the error if it
/// failed.
pub proof fn a_removal_is_told_of(a: HostsAnswers<Seq<char>>, error: Seq<char>)
    requires
        a.backup == Some(BackupState::Missing),
    ensures
        a.removed is Done ==> told(cleanup_step(a), "清理托管 hosts 规则"@, None),
        a.removed == Answer::Failed(error) ==> told(
            cleanup_step(a),
            "hosts 未清理"@,
            Some("failed to clean managed hosts block: "@ + error),
        ),
        a.removed is Done ==> told(restore_step(a), "已清理托管 hosts 规则"@, None),
        a.removed == Answer::Failed(error) ==> told(
            restore_step(a),
            "hosts 未恢复"@,
            Some("failed to clean managed hosts block while stopping: "@ + error),
        ),
{
}

/// Of a backup that is there by half a full cleanup tells whether it was cleared, and
/// stopping the service always warns.
pub proof fn half_a_backup_is_told_of(a: HostsAnswers<Seq<char>>, error: Seq<char>)
    requires
        a.backup == Some(BackupState::Inconsistent),
    ensures
        a.removed is Done && a.cleared is Done ==> told(
            cleanup_step(a),
            "清理托管 hosts 规则并重置异常备份状态"@,
            None,
        ),
        a.removed is Done && a.cleared == Answer::Failed(error) ==> told(
            cleanup_step(a),
            "清理托管 hosts 规则（备份状态异常）"@,
            Some(
                "hosts backup state is inconsistent; managed hosts block was removed but clearing stale backup artifacts failed: "@
                    + error,
            ),
        ),
        a.removed == Answer::Failed(error) ==> told(
            cleanup_step(a),
            "hosts 未清理"@,
            Some("hosts backup state is inconsistent; fallback removal failed: "@ + error),
        ),
        a.removed is Done ==> told(
            restore_step(a),
            "hosts 备份状态异常，已退化为仅清理托管 hosts 规则"@,
            Some(
                "hosts backup state is inconsistent while stopping; removed only the managed hosts block"@,
            ),
        ),
        a.removed == Answer::Failed(error) ==> told(
            restore_step(a),
            "hosts 未恢复"@,
            Some(
                "hosts backup state is inconsistent while stopping; fallback removal failed: "@
                    + error,
            ),
        ),
{
}

/// A full cleanup ends without a warning exactly if the backup is back, or the lines are
/// gone and no backup of no use is left.
pub proof fn when_a_cleanup_is_clean(a: HostsAnswers<Seq<char>>)
    requires
        cleanup_step(a) is Finished,
    ensures
        cleanup_step(a)->warning is None <==> {
            ||| a.backup == Some(BackupState::Ready) && a.valid is Done && a.restored is Done
            ||| a.backup == Some(BackupState::Ready) && a.valid is Failed && a.removed is Done
                && a.cleared is Done
            ||| a.backup == Some(BackupState::Missing) && a.removed is Done
            ||| a.backup == Some(BackupState::Inconsistent) && a.removed is Done && a.cleared
                is Done
        },
{
}

/// Stopping the service ends without a warning exactly if the backup is back, or the lines
/// are gone and there was no backup.
pub proof fn when_a_stop_is_clean(a: HostsAnswers<Seq<char>>)
    requires
        restore_step(a) is Finished,
    ensures
        restore_step(a)->warning is None <==> {
            ||| a.backup == Some(BackupState::Ready) && a.valid is Done && a.restored is Done
            ||| a.backup == Some(BackupState::Missing) && a.removed is Done
        },
{
}

} // verus!
