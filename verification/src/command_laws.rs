//! What each command does: which tasks it asks for, in which order, and what
//! becomes of it if one of them fails.
use vstd::prelude::*;
use crate::plan::{
    ended_at, ended_at_is_the_first, ended_stays, issues, judge, next_in_plan, note, steps_done,
    task_of, was_running, Next, OnFailure, Outcome, Step, Task, Verdict,
};
use crate::service::{
    apply_hosts_only_plan, backup_hosts_plan, clean_hosts_plan,
    cleanup_after_ui_disconnect_plan, cleanup_plan, helper_stop_plan, init_config_plan,
    next_start, prepare_certificate_plan, restore_hosts_plan, rollback, run_foreground_plan,
    runs_already, setup_plan, start_error, start_plan, status_plan, stop_running_daemon_plan,
    uninstall_certificate_plan,
};
use crate::text::join;

verus! {

/// Nothing went wrong, and nothing is left undone.
pub open spec fn fine(outcome: Outcome<Seq<char>>) -> bool {
    match outcome {
        Outcome::Failed(_) => false,
        Outcome::Issue(_) => false,
        Outcome::Noted { note: _, warning } => warning is None,
        Outcome::Done => true,
        Outcome::State { running: _, last_error: _ } => true,
    }
}

/// All of it went well.
pub open spec fn all_fine(outcomes: Seq<Outcome<Seq<char>>>) -> bool {
    forall|i: int| 0 <= i < outcomes.len() ==> fine(#[trigger] outcomes[i])
}

/// All of it went well up to the last, which failed with this error.
pub open spec fn last_failed(outcomes: Seq<Outcome<Seq<char>>>, error: Seq<char>) -> bool {
    &&& outcomes.len() > 0
    &&& outcomes.last() == Outcome::Failed(error)
    &&& all_fine(outcomes.drop_last())
}

// ---------------------------------------------------------------------------
// How a plan goes on
// ---------------------------------------------------------------------------
proof fn no_issue_so_far(
    steps: Seq<Step<Seq<char>>>,
    outcomes: Seq<Outcome<Seq<char>>>,
    n: nat,
)
    requires
        forall|i: int| 0 <= i < n ==> (#[trigger] judge(steps[i], outcomes[i])) is Fine,
    ensures
        issues(steps, outcomes, n) == Seq::<Seq<char>>::empty(),
        ended_at(steps, outcomes, n) is None,
    decreases n,
{
    if n > 0 {
        no_issue_so_far(steps, outcomes, (n - 1) as nat);
        assert(judge(steps[n - 1], outcomes[n - 1]) is Fine);
    }
}

proof fn going_well(steps: Seq<Step<Seq<char>>>, outcomes: Seq<Outcome<Seq<char>>>)
    requires
        forall|i: int|
            0 <= i < steps_done(steps, outcomes) ==> (#[trigger] judge(steps[i], outcomes[i]))
                is Fine,
    ensures
        next_in_plan(steps, outcomes) == (if outcomes.len() < steps.len() {
            let n = outcomes.len();
            Next::Do(
                task_of(
                    steps[n as int].job,
                    Seq::empty(),
                    note(outcomes, n),
                    was_running(outcomes, n),
                ),
            )
        } else {
            Next::Succeeded
        }),
{
    no_issue_so_far(steps, outcomes, steps_done(steps, outcomes));
}

proof fn going_wrong(
    steps: Seq<Step<Seq<char>>>,
    outcomes: Seq<Outcome<Seq<char>>>,
    error: Seq<char>,
)
    requires
        0 < outcomes.len() <= steps.len(),
        outcomes.last() == Outcome::Failed(error),
        forall|i: int|
            0 <= i < outcomes.len() - 1 ==> (#[trigger] judge(steps[i], outcomes[i])) is Fine,
    ensures
        ({
            let n = outcomes.len();
            let found = match steps[n - 1].on_failure {
                OnFailure::Collect(prefix) => seq![prefix + error],
                _ => Seq::<Seq<char>>::empty(),
            };
            next_in_plan(steps, outcomes) == (if steps[n - 1].on_failure is Abort {
                Next::Failed(error)
            } else if n < steps.len() {
                Next::Do(
                    task_of(
                        steps[n as int].job,
                        found,
                        note(outcomes, n),
                        was_running(outcomes, n),
                    ),
                )
            } else if found.len() == 0 {
                Next::Succeeded
            } else {
                Next::Failed(found[0])
            })
        }),
{
    let n = outcomes.len();
    no_issue_so_far(steps, outcomes, (n - 1) as nat);
    let before = issues(steps, outcomes, (n - 1) as nat);
    assert(steps_done(steps, outcomes) == n);
    if let OnFailure::Collect(prefix) = steps[n - 1].on_failure {
        assert(issues(steps, outcomes, n) =~= seq![prefix + error]);
    }
}

/// What a report says about the hosts file is what was noted about it last.
pub proof fn what_was_noted_last_counts(
    outcomes: Seq<Outcome<Seq<char>>>,
    n: nat,
    k: int,
    text: Seq<char>,
    warning: Option<Seq<char>>,
)
    requires
        0 <= k < n <= outcomes.len(),
        outcomes[k] == (Outcome::Noted { note: text, warning }),
        forall|i: int| k < i < n ==> !((#[trigger] outcomes[i]) is Noted),
    ensures
        note(outcomes, n) == text,
    decreases n,
{
    if n - 1 > k {
        assert(!(outcomes[n - 1] is Noted));
        what_was_noted_last_counts(outcomes, (n - 1) as nat, k, text, warning);
    }
}

/// If nothing was noted, the report says nothing about the hosts file.
pub proof fn nothing_noted_is_nothing_said(outcomes: Seq<Outcome<Seq<char>>>, n: nat)
    requires
        n <= outcomes.len(),
        forall|i: int| 0 <= i < n ==> !((#[trigger] outcomes[i]) is Noted),
    ensures
        note(outcomes, n).len() == 0,
    decreases n,
{
    if n > 0 {
        assert(!(outcomes[n - 1] is Noted));
        nothing_noted_is_nothing_said(outcomes, (n - 1) as nat);
    }
}

/// Whether the service ran is what was found out about it last.
pub proof fn what_was_found_out_last_counts(
    outcomes: Seq<Outcome<Seq<char>>>,
    n: nat,
    k: int,
    running: bool,
    last_error: Option<Seq<char>>,
)
    requires
        0 <= k < n <= outcomes.len(),
        outcomes[k] == (Outcome::State { running, last_error }),
        forall|i: int| k < i < n ==> !((#[trigger] outcomes[i]) is State),
    ensures
        was_running(outcomes, n) == running,
    decreases n,
{
    if n - 1 > k {
        assert(!(outcomes[n - 1] is State));
        what_was_found_out_last_counts(outcomes, (n - 1) as nat, k, running, last_error);
    }
}

/// A service of which nothing was found out did not run.
pub proof fn nothing_found_out_is_stopped(outcomes: Seq<Outcome<Seq<char>>>, n: nat)
    requires
        n <= outcomes.len(),
        forall|i: int| 0 <= i < n ==> !((#[trigger] outcomes[i]) is State),
    ensures
        !was_running(outcomes, n),
    decreases n,
{
    if n > 0 {
        assert(!(outcomes[n - 1] is State));
        nothing_found_out_is_stopped(outcomes, (n - 1) as nat);
    }
}

// ---------------------------------------------------------------------------
// Commands that do one thing after the other
// ---------------------------------------------------------------------------
/// Preparing the configuration brings an old one up to date and then reads it. It
/// succeeds once all of that is done, and not before.
pub proof fn preparing_the_configuration(outcomes: Seq<Outcome<Seq<char>>>)
    requires
        all_fine(outcomes),
    ensures
        ({
            let tasks = seq![
                Task::<Seq<char>>::MigrateConfig,
                Task::<Seq<char>>::LoadConfig,
            ];
            &&& outcomes.len() < tasks.len()
                ==> next_in_plan(init_config_plan(), outcomes) == Next::Do(
                tasks[outcomes.len() as int],
            )
            &&& outcomes.len() >= tasks.len()
                ==> next_in_plan(init_config_plan(), outcomes) is Succeeded
        }),
{
    let steps = init_config_plan();
    assert forall|i: int| 0 <= i < steps_done(steps, outcomes) implies (#[trigger] judge(
        steps[i],
        outcomes[i],
    )) is Fine by {
        assert(fine(outcomes[i]));
    }
    going_well(steps, outcomes);
}

/// If any of it fails, the command fails with that error at once.
pub proof fn preparing_the_configuration_can_fail(
    outcomes: Seq<Outcome<Seq<char>>>,
    error: Seq<char>,
)
    requires
        outcomes.len() <= 2,
        last_failed(outcomes, error),
    ensures
        next_in_plan(init_config_plan(), outcomes) == Next::Failed(error),
{
    let steps = init_config_plan();
    assert forall|i: int| 0 <= i < outcomes.len() - 1 implies (#[trigger] judge(
        steps[i],
        outcomes[i],
    )) is Fine by {
        assert(fine(outcomes.drop_last()[i]));
    }
    going_wrong(steps, outcomes, error);
}

/// Setting up makes the address available, has good certificates made and the root
/// trusted, and puts the managed lines into the hosts file, in this order. It succeeds
/// once all of that is done, and not before.
pub proof fn setting_up(outcomes: Seq<Outcome<Seq<char>>>)
    requires
        all_fine(outcomes),
    ensures
        ({
            let tasks = seq![
                Task::<Seq<char>>::MigrateConfig,
                Task::<Seq<char>>::LoadConfig,
                Task::<Seq<char>>::RequireRights(true),
                Task::<Seq<char>>::AddLoopbackAlias,
                Task::<Seq<char>>::EnsureBundle,
                Task::<Seq<char>>::InstallRoot,
                Task::<Seq<char>>::ApplyHosts,
                Task::<Seq<char>>::FlushDns,
                Task::<Seq<char>>::MarkStopped("系统加速环境已准备"@),
            ];
            &&& outcomes.len() < tasks.len() ==> next_in_plan(setup_plan(), outcomes) == Next::Do(
                tasks[outcomes.len() as int],
            )
            &&& outcomes.len() >= tasks.len() ==> next_in_plan(setup_plan(), outcomes) is Succeeded
        }),
{
    let steps = setup_plan();
    assert forall|i: int| 0 <= i < steps_done(steps, outcomes) implies (#[trigger] judge(
        steps[i],
        outcomes[i],
    )) is Fine by {
        assert(fine(outcomes[i]));
    }
    going_well(steps, outcomes);
}

/// If any of it fails, the command fails with that error at once, but for what need not
/// succeed: after that it goes on.
pub proof fn setting_up_can_fail(outcomes: Seq<Outcome<Seq<char>>>, error: Seq<char>)
    requires
        outcomes.len() <= 9,
        last_failed(outcomes, error),
    ensures
        outcomes.len() != 8 ==> next_in_plan(setup_plan(), outcomes) == Next::Failed(error),
        outcomes.len() == 8 ==> next_in_plan(setup_plan(), outcomes) == Next::Do(
            Task::<Seq<char>>::MarkStopped("系统加速环境已准备"@),
        ),
{
    let steps = setup_plan();
    assert forall|i: int| 0 <= i < outcomes.len() - 1 implies (#[trigger] judge(
        steps[i],
        outcomes[i],
    )) is Fine by {
        assert(fine(outcomes.drop_last()[i]));
    }
    going_wrong(steps, outcomes, error);
}

/// Preparing the certificate has good certificates made, and then the root trusted. It
/// succeeds once all of that is done, and not before.
pub proof fn preparing_the_certificate(outcomes: Seq<Outcome<Seq<char>>>)
    requires
        all_fine(outcomes),
    ensures
        ({
            let tasks = seq![
                Task::<Seq<char>>::MigrateConfig,
                Task::<Seq<char>>::LoadConfig,
                Task::<Seq<char>>::EnsureBundle,
                Task::<Seq<char>>::InstallRoot,
            ];
            &&& outcomes.len() < tasks.len()
                ==> next_in_plan(prepare_certificate_plan(), outcomes) == Next::Do(
                tasks[outcomes.len() as int],
            )
            &&& outcomes.len() >= tasks.len()
                ==> next_in_plan(prepare_certificate_plan(), outcomes) is Succeeded
        }),
{
    let steps = prepare_certificate_plan();
    assert forall|i: int| 0 <= i < steps_done(steps, outcomes) implies (#[trigger] judge(
        steps[i],
        outcomes[i],
    )) is Fine by {
        assert(fine(outcomes[i]));
    }
    going_well(steps, outcomes);
}

/// If any of it fails, the command fails with that error at once.
pub proof fn preparing_the_certificate_can_fail(outcomes: Seq<Outcome<Seq<char>>>, error: Seq<char>)
    requires
        outcomes.len() <= 4,
        last_failed(outcomes, error),
    ensures
        next_in_plan(prepare_certificate_plan(), outcomes) == Next::Failed(error),
{
    let steps = prepare_certificate_plan();
    assert forall|i: int| 0 <= i < outcomes.len() - 1 implies (#[trigger] judge(
        steps[i],
        outcomes[i],
    )) is Fine by {
        assert(fine(outcomes.drop_last()[i]));
    }
    going_wrong(steps, outcomes, error);
}

/// Applying the hosts makes the address available and puts the managed lines into
/// the hosts file. It succeeds once all of that is done, and not before.
pub proof fn applying_the_hosts(outcomes: Seq<Outcome<Seq<char>>>)
    requires
        all_fine(outcomes),
    ensures
        ({
            let tasks = seq![
                Task::<Seq<char>>::LoadConfig,
                Task::<Seq<char>>::RequireRights(true),
                Task::<Seq<char>>::AddLoopbackAlias,
                Task::<Seq<char>>::ApplyHosts,
                Task::<Seq<char>>::FlushDns,
            ];
            &&& outcomes.len() < tasks.len()
                ==> next_in_plan(apply_hosts_only_plan(), outcomes) == Next::Do(
                tasks[outcomes.len() as int],
            )
            &&& outcomes.len() >= tasks.len()
                ==> next_in_plan(apply_hosts_only_plan(), outcomes) is Succeeded
        }),
{
    let steps = apply_hosts_only_plan();
    assert forall|i: int| 0 <= i < steps_done(steps, outcomes) implies (#[trigger] judge(
        steps[i],
        outcomes[i],
    )) is Fine by {
        assert(fine(outcomes[i]));
    }
    going_well(steps, outcomes);
}

/// If any of it fails, the command fails with that error at once, but for what need not
/// succeed: after that it goes on.
pub proof fn applying_the_hosts_can_fail(outcomes: Seq<Outcome<Seq<char>>>, error: Seq<char>)
    requires
        outcomes.len() <= 5,
        last_failed(outcomes, error),
    ensures
        outcomes.len() != 5
            ==> next_in_plan(apply_hosts_only_plan(), outcomes) == Next::Failed(error),
        outcomes.len() == 5 ==> next_in_plan(apply_hosts_only_plan(), outcomes) is Succeeded,
{
    let steps = apply_hosts_only_plan();
    assert forall|i: int| 0 <= i < outcomes.len() - 1 implies (#[trigger] judge(
        steps[i],
        outcomes[i],
    )) is Fine by {
        assert(fine(outcomes.drop_last()[i]));
    }
    going_wrong(steps, outcomes, error);
}

/// Backing up the hosts does just that. It succeeds once all of that is done, and not before.
pub proof fn backing_up_the_hosts(outcomes: Seq<Outcome<Seq<char>>>)
    requires
        all_fine(outcomes),
    ensures
        ({
            let tasks = seq![
                Task::<Seq<char>>::BackUpHosts,
            ];
            &&& outcomes.len() < tasks.len()
                ==> next_in_plan(backup_hosts_plan(), outcomes) == Next::Do(
                tasks[outcomes.len() as int],
            )
            &&& outcomes.len() >= tasks.len()
                ==> next_in_plan(backup_hosts_plan(), outcomes) is Succeeded
        }),
{
    let steps = backup_hosts_plan();
    assert forall|i: int| 0 <= i < steps_done(steps, outcomes) implies (#[trigger] judge(
        steps[i],
        outcomes[i],
    )) is Fine by {
        assert(fine(outcomes[i]));
    }
    going_well(steps, outcomes);
}

/// If any of it fails, the command fails with that error at once.
pub proof fn backing_up_the_hosts_can_fail(outcomes: Seq<Outcome<Seq<char>>>, error: Seq<char>)
    requires
        outcomes.len() <= 1,
        last_failed(outcomes, error),
    ensures
        next_in_plan(backup_hosts_plan(), outcomes) == Next::Failed(error),
{
    let steps = backup_hosts_plan();
    assert forall|i: int| 0 <= i < outcomes.len() - 1 implies (#[trigger] judge(
        steps[i],
        outcomes[i],
    )) is Fine by {
        assert(fine(outcomes.drop_last()[i]));
    }
    going_wrong(steps, outcomes, error);
}

/// Uninstalling the certificate takes back the trust in the root. It succeeds once all of
/// that is done, and not before.
pub proof fn uninstalling_the_certificate(outcomes: Seq<Outcome<Seq<char>>>)
    requires
        all_fine(outcomes),
    ensures
        ({
            let tasks = seq![
                Task::<Seq<char>>::LoadConfig,
                Task::<Seq<char>>::RequireRights(true),
                Task::<Seq<char>>::UninstallRoot,
                Task::<Seq<char>>::MarkStopped("根证书已卸载"@),
            ];
            &&& outcomes.len() < tasks.len()
                ==> next_in_plan(uninstall_certificate_plan(), outcomes) == Next::Do(
                tasks[outcomes.len() as int],
            )
            &&& outcomes.len() >= tasks.len()
                ==> next_in_plan(uninstall_certificate_plan(), outcomes) is Succeeded
        }),
{
    let steps = uninstall_certificate_plan();
    assert forall|i: int| 0 <= i < steps_done(steps, outcomes) implies (#[trigger] judge(
        steps[i],
        outcomes[i],
    )) is Fine by {
        assert(fine(outcomes[i]));
    }
    going_well(steps, outcomes);
}

/// If any of it fails, the command fails with that error at once.
pub proof fn uninstalling_the_certificate_can_fail(
    outcomes: Seq<Outcome<Seq<char>>>,
    error: Seq<char>,
)
    requires
        outcomes.len() <= 4,
        last_failed(outcomes, error),
    ensures
        next_in_plan(uninstall_certificate_plan(), outcomes) == Next::Failed(error),
{
    let steps = uninstall_certificate_plan();
    assert forall|i: int| 0 <= i < outcomes.len() - 1 implies (#[trigger] judge(
        steps[i],
        outcomes[i],
    )) is Fine by {
        assert(fine(outcomes.drop_last()[i]));
    }
    going_wrong(steps, outcomes, error);
}

/// Asking for the status finds out whether the service really runs. It succeeds once all
/// of that is done, and not before.
pub proof fn asking_for_the_status(outcomes: Seq<Outcome<Seq<char>>>)
    requires
        all_fine(outcomes),
    ensures
        ({
            let tasks = seq![
                Task::<Seq<char>>::LoadConfig,
                Task::<Seq<char>>::ReconcileState,
            ];
            &&& outcomes.len() < tasks.len() ==> next_in_plan(status_plan(), outcomes) == Next::Do(
                tasks[outcomes.len() as int],
            )
            &&& outcomes.len() >= tasks.len() ==> next_in_plan(status_plan(), outcomes) is Succeeded
        }),
{
    let steps = status_plan();
    assert forall|i: int| 0 <= i < steps_done(steps, outcomes) implies (#[trigger] judge(
        steps[i],
        outcomes[i],
    )) is Fine by {
        assert(fine(outcomes[i]));
    }
    going_well(steps, outcomes);
}

/// If any of it fails, the command fails with that error at once.
pub proof fn asking_for_the_status_can_fail(outcomes: Seq<Outcome<Seq<char>>>, error: Seq<char>)
    requires
        outcomes.len() <= 2,
        last_failed(outcomes, error),
    ensures
        next_in_plan(status_plan(), outcomes) == Next::Failed(error),
{
    let steps = status_plan();
    assert forall|i: int| 0 <= i < outcomes.len() - 1 implies (#[trigger] judge(
        steps[i],
        outcomes[i],
    )) is Fine by {
        assert(fine(outcomes.drop_last()[i]));
    }
    going_wrong(steps, outcomes, error);
}

/// Making way for another service ends the one that runs, and waits for a moment. It
/// succeeds once all of that is done, and not before.
pub proof fn making_way_for_another_service(outcomes: Seq<Outcome<Seq<char>>>)
    requires
        all_fine(outcomes),
    ensures
        ({
            let tasks = seq![
                Task::<Seq<char>>::Terminate,
                Task::<Seq<char>>::ReconcileState,
                Task::<Seq<char>>::ClearPid,
                Task::<Seq<char>>::Pause(300),
            ];
            &&& outcomes.len() < tasks.len()
                ==> next_in_plan(stop_running_daemon_plan(), outcomes) == Next::Do(
                tasks[outcomes.len() as int],
            )
            &&& outcomes.len() >= tasks.len()
                ==> next_in_plan(stop_running_daemon_plan(), outcomes) is Succeeded
        }),
{
    let steps = stop_running_daemon_plan();
    assert forall|i: int| 0 <= i < steps_done(steps, outcomes) implies (#[trigger] judge(
        steps[i],
        outcomes[i],
    )) is Fine by {
        assert(fine(outcomes[i]));
    }
    going_well(steps, outcomes);
}

/// If any of it fails, the command fails with that error at once, but for what need not
/// succeed: after that it goes on.
pub proof fn making_way_for_another_service_can_fail(
    outcomes: Seq<Outcome<Seq<char>>>,
    error: Seq<char>,
)
    requires
        outcomes.len() <= 4,
        last_failed(outcomes, error),
    ensures
        outcomes.len() != 2 && outcomes.len() != 3
            ==> next_in_plan(stop_running_daemon_plan(), outcomes) == Next::Failed(error),
        outcomes.len() == 2 ==> next_in_plan(stop_running_daemon_plan(), outcomes) == Next::Do(
            Task::<Seq<char>>::ClearPid,
        ),
        outcomes.len() == 3 ==> next_in_plan(stop_running_daemon_plan(), outcomes) == Next::Do(
            Task::<Seq<char>>::Pause(300),
        ),
{
    let steps = stop_running_daemon_plan();
    assert forall|i: int| 0 <= i < outcomes.len() - 1 implies (#[trigger] judge(
        steps[i],
        outcomes[i],
    )) is Fine by {
        assert(fine(outcomes.drop_last()[i]));
    }
    going_wrong(steps, outcomes, error);
}

/// Running without setting up uses the certificates that are there. It succeeds once all
/// of that is done, and not before.
pub proof fn running_without_setup(outcomes: Seq<Outcome<Seq<char>>>)
    requires
        all_fine(outcomes),
    ensures
        ({
            let tasks = seq![
                Task::<Seq<char>>::MigrateConfig,
                Task::<Seq<char>>::LoadConfig,
                Task::<Seq<char>>::RequireRights(false),
                Task::<Seq<char>>::AddLoopbackAlias,
                Task::<Seq<char>>::LoadBundle,
                Task::<Seq<char>>::RecordOwnPid,
                Task::<Seq<char>>::MarkRunning,
            ];
            &&& outcomes.len() < tasks.len()
                ==> next_in_plan(run_foreground_plan(false), outcomes) == Next::Do(
                tasks[outcomes.len() as int],
            )
            &&& outcomes.len() >= tasks.len()
                ==> next_in_plan(run_foreground_plan(false), outcomes) is Succeeded
        }),
{
    let steps = run_foreground_plan(false);
    assert forall|i: int| 0 <= i < steps_done(steps, outcomes) implies (#[trigger] judge(
        steps[i],
        outcomes[i],
    )) is Fine by {
        assert(fine(outcomes[i]));
    }
    going_well(steps, outcomes);
}

/// If any of it fails, the command fails with that error at once.
pub proof fn running_without_setup_can_fail(outcomes: Seq<Outcome<Seq<char>>>, error: Seq<char>)
    requires
        outcomes.len() <= 7,
        last_failed(outcomes, error),
    ensures
        next_in_plan(run_foreground_plan(false), outcomes) == Next::Failed(error),
{
    let steps = run_foreground_plan(false);
    assert forall|i: int| 0 <= i < outcomes.len() - 1 implies (#[trigger] judge(
        steps[i],
        outcomes[i],
    )) is Fine by {
        assert(fine(outcomes.drop_last()[i]));
    }
    going_wrong(steps, outcomes, error);
}

/// Running with setting up prepares the system first. It succeeds once all of that is
/// done, and not before.
pub proof fn running_with_setup(outcomes: Seq<Outcome<Seq<char>>>)
    requires
        all_fine(outcomes),
    ensures
        ({
            let tasks = seq![
                Task::<Seq<char>>::MigrateConfig,
                Task::<Seq<char>>::LoadConfig,
                Task::<Seq<char>>::RequireRights(true),
                Task::<Seq<char>>::AddLoopbackAlias,
                Task::<Seq<char>>::EnsureBundle,
                Task::<Seq<char>>::InstallRoot,
                Task::<Seq<char>>::ApplyHosts,
                Task::<Seq<char>>::FlushDns,
                Task::<Seq<char>>::RecordOwnPid,
                Task::<Seq<char>>::MarkRunning,
            ];
            &&& outcomes.len() < tasks.len()
                ==> next_in_plan(run_foreground_plan(true), outcomes) == Next::Do(
                tasks[outcomes.len() as int],
            )
            &&& outcomes.len() >= tasks.len()
                ==> next_in_plan(run_foreground_plan(true), outcomes) is Succeeded
        }),
{
    let steps = run_foreground_plan(true);
    assert forall|i: int| 0 <= i < steps_done(steps, outcomes) implies (#[trigger] judge(
        steps[i],
        outcomes[i],
    )) is Fine by {
        assert(fine(outcomes[i]));
    }
    going_well(steps, outcomes);
}

/// If any of it fails, the command fails with that error at once, but for what need not
/// succeed: after that it goes on.
pub proof fn running_with_setup_can_fail(outcomes: Seq<Outcome<Seq<char>>>, error: Seq<char>)
    requires
        outcomes.len() <= 10,
        last_failed(outcomes, error),
    ensures
        outcomes.len() != 8
            ==> next_in_plan(run_foreground_plan(true), outcomes) == Next::Failed(error),
        outcomes.len() == 8 ==> next_in_plan(run_foreground_plan(true), outcomes) == Next::Do(
            Task::<Seq<char>>::RecordOwnPid,
        ),
{
    let steps = run_foreground_plan(true);
    assert forall|i: int| 0 <= i < outcomes.len() - 1 implies (#[trigger] judge(
        steps[i],
        outcomes[i],
    )) is Fine by {
        assert(fine(outcomes.drop_last()[i]));
    }
    going_wrong(steps, outcomes, error);
}

// ---------------------------------------------------------------------------
// Commands that depend on what they find
// ---------------------------------------------------------------------------
/// Stopping the service ends its process, undoes what was done to the hosts file,
/// takes the address back, forgets the process and the user interface, and says
/// what became of the hosts file. It succeeds once all of that is done, and not before.
pub proof fn stopping(outcomes: Seq<Outcome<Seq<char>>>, text: Seq<char>)
    requires
        all_fine(outcomes),
        outcomes.len() > 3 ==> outcomes[3] == (Outcome::Noted { note: text, warning: None }),
        forall|i: int|
            0 <= i < outcomes.len() && i != 3 ==> !((#[trigger] outcomes[i]) is Noted),
    ensures
        ({
            let tasks = seq![
                Task::<Seq<char>>::LoadConfig,
                Task::<Seq<char>>::RequireRights(true),
                Task::<Seq<char>>::Terminate,
                Task::<Seq<char>>::RestoreHostsAfterStop,
                Task::<Seq<char>>::RemoveLoopbackAlias,
                Task::<Seq<char>>::ClearPid,
                Task::<Seq<char>>::ClearUiLease,
                Task::<Seq<char>>::FlushDns,
                Task::<Seq<char>>::MarkStopped("加速已停止，"@ + text),
            ];
            &&& outcomes.len() < tasks.len()
                ==> next_in_plan(helper_stop_plan(), outcomes) == Next::Do(
                tasks[outcomes.len() as int],
            )
            &&& outcomes.len() >= tasks.len()
                ==> next_in_plan(helper_stop_plan(), outcomes) is Succeeded
        }),
{
    let steps = helper_stop_plan();
    assert forall|i: int| 0 <= i < steps_done(steps, outcomes) implies (#[trigger] judge(
        steps[i],
        outcomes[i],
    )) is Fine by {
        assert(fine(outcomes[i]));
    }
    going_well(steps, outcomes);
    if outcomes.len() == 8 {
        what_was_noted_last_counts(outcomes, 8, 3, text, None);
    }
}

/// As long as the process and the hosts file are not dealt with, a failure ends the
/// command at once; after that it goes on, whatever fails.
pub proof fn stopping_can_fail(outcomes: Seq<Outcome<Seq<char>>>, error: Seq<char>)
    requires
        outcomes.len() <= 9,
        last_failed(outcomes, error),
    ensures
        outcomes.len() <= 4 ==> next_in_plan(helper_stop_plan(), outcomes) == Next::Failed(error),
        outcomes.len() == 5 ==> next_in_plan(helper_stop_plan(), outcomes) == Next::Do(
            Task::<Seq<char>>::ClearPid,
        ),
        outcomes.len() == 6 ==> next_in_plan(helper_stop_plan(), outcomes) == Next::Do(
            Task::<Seq<char>>::ClearUiLease,
        ),
        outcomes.len() == 7 ==> next_in_plan(helper_stop_plan(), outcomes) == Next::Do(
            Task::<Seq<char>>::FlushDns,
        ),
        outcomes.len() == 8 ==> next_in_plan(helper_stop_plan(), outcomes) is Do,
        outcomes.len() == 9 ==> next_in_plan(helper_stop_plan(), outcomes) == Next::Failed(
            "failed to update service state: "@ + error,
        ),
{
    let steps = helper_stop_plan();
    assert forall|i: int| 0 <= i < outcomes.len() - 1 implies (#[trigger] judge(
        steps[i],
        outcomes[i],
    )) is Fine by {
        assert(fine(outcomes.drop_last()[i]));
    }
    going_wrong(steps, outcomes, error);
}

/// What is left undone is told: the report says that all is well only if it is, and
/// so does the command; else it fails with what is left.
pub proof fn stopping_tells_what_is_left(
    outcomes: Seq<Outcome<Seq<char>>>,
    text: Seq<char>,
    warning: Option<Seq<char>>,
)
    requires
        outcomes.len() >= 8,
        outcomes[0] is Done,
        outcomes[1] is Done,
        outcomes[2] is Done,
        outcomes[3] == (Outcome::Noted { note: text, warning }),
        outcomes[4] is Done || outcomes[4] is Failed,
        outcomes[5] is Done || outcomes[5] is Failed,
        outcomes[6] is Done || outcomes[6] is Failed,
        outcomes[7] is Done || outcomes[7] is Failed,
        outcomes.len() > 8 ==> outcomes[8] is Done || outcomes[8] is Failed,
    ensures
        outcomes.len() == 8 ==> next_in_plan(helper_stop_plan(), outcomes) == Next::Do(
            Task::<Seq<char>>::MarkStopped(
                (if warning is None && outcomes[4] is Done && outcomes[5] is Done
                    && outcomes[6] is Done {
                    "加速已停止，"@
                } else {
                    "已执行停止请求，但存在残留清理问题："@
                }) + text,
            ),
        ),
        outcomes.len() > 8 ==> (next_in_plan(helper_stop_plan(), outcomes) is Succeeded
            <==> warning is None
            && outcomes[4] is Done && outcomes[5] is Done && outcomes[6] is Done
                && outcomes[8] is Done),
        outcomes.len() > 8 ==> !(next_in_plan(helper_stop_plan(), outcomes) is Do),
        outcomes.len() > 8 && warning is None && outcomes[5] is Done && outcomes[6] is Done
            && outcomes[8] is Done && outcomes[4] is Failed ==> next_in_plan(
            helper_stop_plan(),
            outcomes,
        ) == Next::Failed("failed to remove loopback alias: "@ + outcomes[4]->Failed_0),
        outcomes.len() > 8 && warning is None && outcomes[4] is Done && outcomes[6] is Done
            && outcomes[8] is Done && outcomes[5] is Failed ==> next_in_plan(
            helper_stop_plan(),
            outcomes,
        ) == Next::Failed("failed to clear pid file: "@ + outcomes[5]->Failed_0),
        outcomes.len() > 8 && warning is None && outcomes[4] is Done && outcomes[5] is Done
            && outcomes[8] is Done && outcomes[6] is Failed ==> next_in_plan(
            helper_stop_plan(),
            outcomes,
        ) == Next::Failed("failed to clear ui lease: "@ + outcomes[6]->Failed_0),
        outcomes.len() > 8 && warning is None && outcomes[4] is Done && outcomes[5] is Done
            && outcomes[6] is Done && outcomes[8] is Failed ==> next_in_plan(
            helper_stop_plan(),
            outcomes,
        ) == Next::Failed("failed to update service state: "@ + outcomes[8]->Failed_0),
        outcomes.len() > 8 && outcomes[4] is Done && outcomes[5] is Done && outcomes[6] is Done
            && outcomes[8] is Done && warning is Some ==> next_in_plan(
            helper_stop_plan(),
            outcomes,
        ) == Next::Failed(warning->0),
{
    reveal_with_fuel(issues, 10);
    reveal_with_fuel(ended_at, 10);
    reveal_with_fuel(note, 10);
    reveal_with_fuel(join, 2);
    let steps = helper_stop_plan();
    assert(steps.len() == 9);
    no_issue_so_far(steps, outcomes, 3);
}

/// A full cleanup ends the process of the service, undoes what was done to the
/// hosts file, takes back the address and the trust in the root certificate,
/// forgets the process and the user interface, and says what became of the hosts
/// file. It succeeds once all of that is done, and not before.
pub proof fn cleaning_up(outcomes: Seq<Outcome<Seq<char>>>, text: Seq<char>)
    requires
        all_fine(outcomes),
        outcomes.len() > 3 ==> outcomes[3] == (Outcome::Noted { note: text, warning: None }),
        forall|i: int|
            0 <= i < outcomes.len() && i != 3 ==> !((#[trigger] outcomes[i]) is Noted),
    ensures
        ({
            let tasks = seq![
                Task::<Seq<char>>::LoadConfig,
                Task::<Seq<char>>::RequireRights(true),
                Task::<Seq<char>>::Terminate,
                Task::<Seq<char>>::CleanUpHosts,
                Task::<Seq<char>>::RemoveLoopbackAlias,
                Task::<Seq<char>>::UninstallRoot,
                Task::<Seq<char>>::ClearPid,
                Task::<Seq<char>>::ClearUiLease,
                Task::<Seq<char>>::MarkStopped("已卸载证书并"@ + text),
            ];
            &&& outcomes.len() < tasks.len() ==> next_in_plan(cleanup_plan(), outcomes) == Next::Do(
                tasks[outcomes.len() as int],
            )
            &&& outcomes.len() >= tasks.len()
                ==> next_in_plan(cleanup_plan(), outcomes) is Succeeded
        }),
{
    let steps = cleanup_plan();
    assert forall|i: int| 0 <= i < steps_done(steps, outcomes) implies (#[trigger] judge(
        steps[i],
        outcomes[i],
    )) is Fine by {
        assert(fine(outcomes[i]));
    }
    going_well(steps, outcomes);
    if outcomes.len() == 8 {
        what_was_noted_last_counts(outcomes, 8, 3, text, None);
    }
}

/// As long as the process and the hosts file are not dealt with, a failure ends the
/// command at once; after that it goes on, whatever fails.
pub proof fn cleaning_up_can_fail(outcomes: Seq<Outcome<Seq<char>>>, error: Seq<char>)
    requires
        outcomes.len() <= 9,
        last_failed(outcomes, error),
    ensures
        outcomes.len() <= 4 ==> next_in_plan(cleanup_plan(), outcomes) == Next::Failed(error),
        outcomes.len() == 5 ==> next_in_plan(cleanup_plan(), outcomes) == Next::Do(
            Task::<Seq<char>>::UninstallRoot,
        ),
        outcomes.len() == 6 ==> next_in_plan(cleanup_plan(), outcomes) == Next::Do(
            Task::<Seq<char>>::ClearPid,
        ),
        outcomes.len() == 7 ==> next_in_plan(cleanup_plan(), outcomes) == Next::Do(
            Task::<Seq<char>>::ClearUiLease,
        ),
        outcomes.len() == 8 ==> next_in_plan(cleanup_plan(), outcomes) is Do,
        outcomes.len() == 9 ==> next_in_plan(cleanup_plan(), outcomes) == Next::Failed(
            "failed to update service state: "@ + error,
        ),
{
    let steps = cleanup_plan();
    assert forall|i: int| 0 <= i < outcomes.len() - 1 implies (#[trigger] judge(
        steps[i],
        outcomes[i],
    )) is Fine by {
        assert(fine(outcomes.drop_last()[i]));
    }
    going_wrong(steps, outcomes, error);
}

/// What is left undone is told: the report says that all is well only if it is, and
/// so does the command; else it fails with what is left.
pub proof fn cleaning_up_tells_what_is_left(
    outcomes: Seq<Outcome<Seq<char>>>,
    text: Seq<char>,
    warning: Option<Seq<char>>,
)
    requires
        outcomes.len() >= 8,
        outcomes[0] is Done,
        outcomes[1] is Done,
        outcomes[2] is Done,
        outcomes[3] == (Outcome::Noted { note: text, warning }),
        outcomes[4] is Done || outcomes[4] is Failed,
        outcomes[5] is Done || outcomes[5] is Failed,
        outcomes[6] is Done || outcomes[6] is Failed,
        outcomes[7] is Done || outcomes[7] is Failed,
        outcomes.len() > 8 ==> outcomes[8] is Done || outcomes[8] is Failed,
    ensures
        outcomes.len() == 8 ==> next_in_plan(cleanup_plan(), outcomes) == Next::Do(
            Task::<Seq<char>>::MarkStopped(
                (if warning is None && outcomes[4] is Done && outcomes[5] is Done
                    && outcomes[6] is Done && outcomes[7] is Done {
                    "已卸载证书并"@
                } else {
                    "已执行 cleanup，但存在残留问题："@
                }) + text,
            ),
        ),
        outcomes.len() > 8 ==> (next_in_plan(cleanup_plan(), outcomes) is Succeeded
            <==> warning is None
            && outcomes[4] is Done && outcomes[5] is Done && outcomes[6] is Done
                && outcomes[7] is Done && outcomes[8] is Done),
        outcomes.len() > 8 ==> !(next_in_plan(cleanup_plan(), outcomes) is Do),
        outcomes.len() > 8 && warning is None && outcomes[5] is Done && outcomes[6] is Done
            && outcomes[7] is Done && outcomes[8] is Done && outcomes[4] is Failed ==> next_in_plan(
            cleanup_plan(),
            outcomes,
        ) == Next::Failed("failed to remove loopback alias: "@ + outcomes[4]->Failed_0),
        outcomes.len() > 8 && warning is None && outcomes[4] is Done && outcomes[6] is Done
            && outcomes[7] is Done && outcomes[8] is Done && outcomes[5] is Failed ==> next_in_plan(
            cleanup_plan(),
            outcomes,
        ) == Next::Failed("failed to uninstall certificate: "@ + outcomes[5]->Failed_0),
        outcomes.len() > 8 && warning is None && outcomes[4] is Done && outcomes[5] is Done
            && outcomes[7] is Done && outcomes[8] is Done && outcomes[6] is Failed ==> next_in_plan(
            cleanup_plan(),
            outcomes,
        ) == Next::Failed("failed to clear pid file: "@ + outcomes[6]->Failed_0),
        outcomes.len() > 8 && warning is None && outcomes[4] is Done && outcomes[5] is Done
            && outcomes[6] is Done && outcomes[8] is Done && outcomes[7] is Failed ==> next_in_plan(
            cleanup_plan(),
            outcomes,
        ) == Next::Failed("failed to clear ui lease: "@ + outcomes[7]->Failed_0),
        outcomes.len() > 8 && warning is None && outcomes[4] is Done && outcomes[5] is Done
            && outcomes[6] is Done && outcomes[7] is Done && outcomes[8] is Failed ==> next_in_plan(
            cleanup_plan(),
            outcomes,
        ) == Next::Failed("failed to update service state: "@ + outcomes[8]->Failed_0),
        outcomes.len() > 8 && outcomes[4] is Done && outcomes[5] is Done && outcomes[6] is Done
            && outcomes[7] is Done && outcomes[8] is Done && warning is Some ==> next_in_plan(
            cleanup_plan(),
            outcomes,
        ) == Next::Failed(warning->0),
{
    reveal_with_fuel(issues, 10);
    reveal_with_fuel(ended_at, 10);
    reveal_with_fuel(note, 10);
    reveal_with_fuel(join, 2);
    let steps = cleanup_plan();
    assert(steps.len() == 9);
    no_issue_so_far(steps, outcomes, 3);
}

/// Cleaning up after the user interface undoes what was done to the hosts file,
/// takes the address back, forgets the process and the user interface, and says
/// what became of the hosts file. It succeeds once all of that is done, and not before.
pub proof fn cleaning_up_after_the_ui(outcomes: Seq<Outcome<Seq<char>>>, text: Seq<char>)
    requires
        all_fine(outcomes),
        outcomes.len() > 0 ==> outcomes[0] == (Outcome::Noted { note: text, warning: None }),
        forall|i: int|
            0 <= i < outcomes.len() && i != 0 ==> !((#[trigger] outcomes[i]) is Noted),
    ensures
        ({
            let tasks = seq![
                Task::<Seq<char>>::RestoreHostsAfterStop,
                Task::<Seq<char>>::RemoveLoopbackAlias,
                Task::<Seq<char>>::ClearPid,
                Task::<Seq<char>>::ClearUiLease,
                Task::<Seq<char>>::FlushDns,
                Task::<Seq<char>>::MarkStopped("前端已退出，自动停止加速并"@ + text),
            ];
            &&& outcomes.len() < tasks.len()
                ==> next_in_plan(cleanup_after_ui_disconnect_plan(), outcomes) == Next::Do(
                tasks[outcomes.len() as int],
            )
            &&& outcomes.len() >= tasks.len()
                ==> next_in_plan(cleanup_after_ui_disconnect_plan(), outcomes) is Succeeded
        }),
{
    let steps = cleanup_after_ui_disconnect_plan();
    assert forall|i: int| 0 <= i < steps_done(steps, outcomes) implies (#[trigger] judge(
        steps[i],
        outcomes[i],
    )) is Fine by {
        assert(fine(outcomes[i]));
    }
    going_well(steps, outcomes);
    if outcomes.len() == 5 {
        what_was_noted_last_counts(outcomes, 5, 0, text, None);
    }
}

/// As long as the process and the hosts file are not dealt with, a failure ends the
/// command at once; after that it goes on, whatever fails.
pub proof fn cleaning_up_after_the_ui_can_fail(outcomes: Seq<Outcome<Seq<char>>>, error: Seq<char>)
    requires
        outcomes.len() <= 6,
        last_failed(outcomes, error),
    ensures
        outcomes.len() <= 1
            ==> next_in_plan(cleanup_after_ui_disconnect_plan(), outcomes) == Next::Failed(error),
        outcomes.len() == 2
            ==> next_in_plan(cleanup_after_ui_disconnect_plan(), outcomes) == Next::Do(
            Task::<Seq<char>>::ClearPid,
        ),
        outcomes.len() == 3
            ==> next_in_plan(cleanup_after_ui_disconnect_plan(), outcomes) == Next::Do(
            Task::<Seq<char>>::ClearUiLease,
        ),
        outcomes.len() == 4
            ==> next_in_plan(cleanup_after_ui_disconnect_plan(), outcomes) == Next::Do(
            Task::<Seq<char>>::FlushDns,
        ),
        outcomes.len() == 5 ==> next_in_plan(cleanup_after_ui_disconnect_plan(), outcomes) is Do,
        outcomes.len() == 6
            ==> next_in_plan(cleanup_after_ui_disconnect_plan(), outcomes) is Succeeded,
{
    let steps = cleanup_after_ui_disconnect_plan();
    assert forall|i: int| 0 <= i < outcomes.len() - 1 implies (#[trigger] judge(
        steps[i],
        outcomes[i],
    )) is Fine by {
        assert(fine(outcomes.drop_last()[i]));
    }
    going_wrong(steps, outcomes, error);
}

/// What is left undone is told: the report says that all is well only if it is, and
/// so does the command; else it fails with what is left.
pub proof fn cleaning_up_after_the_ui_tells_what_is_left(
    outcomes: Seq<Outcome<Seq<char>>>,
    text: Seq<char>,
    warning: Option<Seq<char>>,
)
    requires
        outcomes.len() >= 5,
        outcomes[0] == (Outcome::Noted { note: text, warning }),
        outcomes[1] is Done || outcomes[1] is Failed,
        outcomes[2] is Done || outcomes[2] is Failed,
        outcomes[3] is Done || outcomes[3] is Failed,
        outcomes[4] is Done || outcomes[4] is Failed,
        outcomes.len() > 5 ==> outcomes[5] is Done || outcomes[5] is Failed,
    ensures
        outcomes.len() == 5
            ==> next_in_plan(cleanup_after_ui_disconnect_plan(), outcomes) == Next::Do(
            Task::<Seq<char>>::MarkStopped(
                (if warning is None && outcomes[1] is Done && outcomes[2] is Done
                    && outcomes[3] is Done {
                    "前端已退出，自动停止加速并"@
                } else {
                    "前端已退出，已停止监听，但存在残留清理问题："@
                }) + text,
            ),
        ),
        outcomes.len() > 5
            ==> (next_in_plan(cleanup_after_ui_disconnect_plan(), outcomes) is Succeeded
            <==> warning is None
            && outcomes[1] is Done && outcomes[2] is Done && outcomes[3] is Done),
        outcomes.len() > 5 ==> !(next_in_plan(cleanup_after_ui_disconnect_plan(), outcomes) is Do),
        outcomes.len() > 5 && warning is None && outcomes[2] is Done && outcomes[3] is Done
            && outcomes[1] is Failed ==> next_in_plan(
            cleanup_after_ui_disconnect_plan(),
            outcomes,
        ) == Next::Failed("failed to remove loopback alias: "@ + outcomes[1]->Failed_0),
        outcomes.len() > 5 && warning is None && outcomes[1] is Done && outcomes[3] is Done
            && outcomes[2] is Failed ==> next_in_plan(
            cleanup_after_ui_disconnect_plan(),
            outcomes,
        ) == Next::Failed("failed to clear pid file: "@ + outcomes[2]->Failed_0),
        outcomes.len() > 5 && warning is None && outcomes[1] is Done && outcomes[2] is Done
            && outcomes[3] is Failed ==> next_in_plan(
            cleanup_after_ui_disconnect_plan(),
            outcomes,
        ) == Next::Failed("failed to clear ui lease: "@ + outcomes[3]->Failed_0),
        outcomes.len() > 5 && outcomes[1] is Done && outcomes[2] is Done && outcomes[3] is Done
            && warning is Some ==> next_in_plan(
            cleanup_after_ui_disconnect_plan(),
            outcomes,
        ) == Next::Failed(warning->0),
{
    reveal_with_fuel(issues, 7);
    reveal_with_fuel(ended_at, 7);
    reveal_with_fuel(note, 7);
    reveal_with_fuel(join, 2);
    let steps = cleanup_after_ui_disconnect_plan();
    assert(steps.len() == 6);
    no_issue_so_far(steps, outcomes, 0);
}

/// Cleaning the hosts removes the managed lines and takes the address back, if the
/// service is stopped. It succeeds once all of that is done, and not before.
pub proof fn cleaning_the_hosts(outcomes: Seq<Outcome<Seq<char>>>)
    requires
        all_fine(outcomes),
        outcomes.len() > 2
            ==> !(outcomes[2] matches Outcome::State { running: true, last_error: _ }),
    ensures
        ({
            let tasks = seq![
                Task::<Seq<char>>::LoadConfig,
                Task::<Seq<char>>::RequireRights(true),
                Task::<Seq<char>>::RefreshState,
                Task::<Seq<char>>::RemoveHosts,
                Task::<Seq<char>>::RemoveLoopbackAlias,
                Task::<Seq<char>>::MarkStopped("hosts 已清理"@),
            ];
            &&& outcomes.len() < tasks.len() ==> next_in_plan(clean_hosts_plan(), outcomes)
                == Next::Do(tasks[outcomes.len() as int])
            &&& outcomes.len() >= tasks.len() ==> next_in_plan(clean_hosts_plan(), outcomes)
                is Succeeded
        }),
{
    let steps = clean_hosts_plan();
    assert forall|i: int| 0 <= i < steps_done(steps, outcomes) implies (#[trigger] judge(
        steps[i],
        outcomes[i],
    )) is Fine by {
        assert(fine(outcomes[i]));
    }
    going_well(steps, outcomes);
}

/// If any of it fails, the command fails with that error at once. If the service
/// runs, the hosts file is left alone.
pub proof fn cleaning_the_hosts_can_fail(
    outcomes: Seq<Outcome<Seq<char>>>,
    error: Seq<char>,
    last_error: Option<Seq<char>>,
)
    requires
        0 < outcomes.len() <= 6,
        all_fine(outcomes.drop_last()),
        outcomes.len() > 3
            ==> !(outcomes[2] matches Outcome::State { running: true, last_error: _ }),
    ensures
        outcomes.last() == Outcome::Failed(error) ==> next_in_plan(clean_hosts_plan(), outcomes)
            == Next::Failed(error),
        outcomes.len() == 3 && outcomes[2] == (Outcome::State { running: true, last_error })
            ==> next_in_plan(clean_hosts_plan(), outcomes) == Next::Failed(
            "service is still running; stop or cleanup before `clean-hosts`"@,
        ),
{
    let steps = clean_hosts_plan();
    assert forall|i: int| 0 <= i < outcomes.len() - 1 implies (#[trigger] judge(
        steps[i],
        outcomes[i],
    )) is Fine by {
        assert(fine(outcomes.drop_last()[i]));
    }
    if outcomes.last() == Outcome::Failed(error) {
        going_wrong(steps, outcomes, error);
    } else {
        no_issue_so_far(steps, outcomes, (outcomes.len() - 1) as nat);
    }
}

/// Restoring the hosts ends the process of the service, puts the backup in the
/// place of the hosts file, takes the address back, and says whether the service
/// ran. It succeeds once all of that is done, and not before.
pub proof fn restoring_the_hosts(
    outcomes: Seq<Outcome<Seq<char>>>,
    running: bool,
    last_error: Option<Seq<char>>,
)
    requires
        all_fine(outcomes),
        outcomes.len() > 2 ==> outcomes[2] == (Outcome::State { running, last_error }),
        forall|i: int| 2 < i < outcomes.len() ==> !((#[trigger] outcomes[i]) is State),
    ensures
        ({
            let tasks = seq![
                Task::<Seq<char>>::LoadConfig,
                Task::<Seq<char>>::RequireRights(true),
                Task::<Seq<char>>::RefreshState,
                Task::<Seq<char>>::Terminate,
                Task::<Seq<char>>::RestoreHosts,
                Task::<Seq<char>>::FlushDns,
                Task::<Seq<char>>::RemoveLoopbackAlias,
                Task::<Seq<char>>::ClearPid,
                Task::<Seq<char>>::MarkStopped(
                    if running {
                        "已停止加速并恢复 hosts 备份"@
                    } else {
                        "hosts 已恢复为备份"@
                    },
                ),
            ];
            &&& outcomes.len() < tasks.len() ==> next_in_plan(restore_hosts_plan(), outcomes)
                == Next::Do(tasks[outcomes.len() as int])
            &&& outcomes.len() >= tasks.len() ==> next_in_plan(restore_hosts_plan(), outcomes)
                is Succeeded
        }),
{
    let steps = restore_hosts_plan();
    assert forall|i: int| 0 <= i < steps_done(steps, outcomes) implies (#[trigger] judge(
        steps[i],
        outcomes[i],
    )) is Fine by {
        assert(fine(outcomes[i]));
    }
    going_well(steps, outcomes);
    if outcomes.len() == 8 {
        what_was_found_out_last_counts(outcomes, 8, 2, running, last_error);
    }
}

/// If any of it fails, or the service cannot be ended, the command fails at once with
/// what went wrong, but for what need not succeed: after that it goes on.
pub proof fn restoring_the_hosts_can_fail(outcomes: Seq<Outcome<Seq<char>>>, error: Seq<char>)
    requires
        0 < outcomes.len() <= 9,
        all_fine(outcomes.drop_last()),
    ensures
        outcomes.last() == Outcome::Failed(error) && outcomes.len() != 6 && outcomes.len() != 8
            ==> next_in_plan(restore_hosts_plan(), outcomes) == Next::Failed(error),
        outcomes.last() == Outcome::Failed(error) && outcomes.len() == 6 ==> next_in_plan(
            restore_hosts_plan(),
            outcomes,
        ) == Next::Do(Task::<Seq<char>>::RemoveLoopbackAlias),
        outcomes.last() == Outcome::Failed(error) && outcomes.len() == 8 ==> (next_in_plan(
            restore_hosts_plan(),
            outcomes,
        ) matches Next::Do(Task::MarkStopped(_))),
        outcomes.last() == Outcome::Issue(error) && outcomes.len() == 4 ==> next_in_plan(
            restore_hosts_plan(),
            outcomes,
        ) == Next::Failed(error),
{
    let steps = restore_hosts_plan();
    assert forall|i: int| 0 <= i < outcomes.len() - 1 implies (#[trigger] judge(
        steps[i],
        outcomes[i],
    )) is Fine by {
        assert(fine(outcomes.drop_last()[i]));
    }
    if outcomes.last() == Outcome::Failed(error) {
        going_wrong(steps, outcomes, error);
    } else {
        no_issue_so_far(steps, outcomes, (outcomes.len() - 1) as nat);
    }
}

/// The command succeeds only if the backup was put in the place of the hosts file,
/// and that did not fail.
pub proof fn restored_hosts_are_restored(outcomes: Seq<Outcome<Seq<char>>>)
    requires
        next_in_plan(restore_hosts_plan(), outcomes) is Succeeded,
    ensures
        outcomes.len() > 4,
        next_in_plan(restore_hosts_plan(), outcomes.take(4)) == Next::Do(
            Task::<Seq<char>>::RestoreHosts,
        ),
        !(outcomes[4] is Failed),
{
    let steps = restore_hosts_plan();
    ended_at_is_the_first(steps, outcomes, steps_done(steps, outcomes));
    assert(outcomes.len() >= steps.len());
    let few = outcomes.take(4);
    assert(!(judge(steps[4], outcomes[4]) is Abort));
    assert forall|i: int| 0 <= i < 4 implies !(#[trigger] judge(steps[i], few[i]) is Abort) by {
        assert(!(judge(steps[i], outcomes[i]) is Abort));
    }
    ended_at_is_the_first(steps, few, 4);
}

/// A service that could not be ended is no obstacle for another.
pub proof fn an_old_service_is_no_obstacle(issue: Seq<char>)
    ensures
        next_in_plan(stop_running_daemon_plan(), seq![Outcome::Issue(issue)]) == Next::Do(
            Task::<Seq<char>>::ReconcileState,
        ),
{
    let outcomes = seq![Outcome::Issue(issue)];
    let steps = stop_running_daemon_plan();
    assert(judge(steps[0], outcomes[0]) is Fine);
    going_well(steps, outcomes);
}

/// A full cleanup goes on if the process of the service could not be ended, and says
/// so at the end.
pub proof fn a_cleanup_does_not_wait_for_the_service(issue: Seq<char>)
    ensures
        next_in_plan(
            cleanup_plan(),
            seq![Outcome::Done, Outcome::Done, Outcome::Issue(issue)],
        ) == Next::Do(Task::<Seq<char>>::CleanUpHosts),
        next_in_plan(
            cleanup_plan(),
            seq![
                Outcome::Done,
                Outcome::Done,
                Outcome::Issue(issue),
                Outcome::Done,
                Outcome::Done,
                Outcome::Done,
                Outcome::Done,
                Outcome::Done,
                Outcome::Done,
            ],
        ) == Next::Failed(issue),
{
    reveal_with_fuel(issues, 11);
    reveal_with_fuel(ended_at, 11);
    reveal_with_fuel(join, 2);
    assert(cleanup_plan().len() == 9);
}

// ---------------------------------------------------------------------------
// Starting the service
// ---------------------------------------------------------------------------
/// Starting the service prepares the system, ends a service that runs already, puts
/// the managed lines into the hosts file, starts the process, and makes sure that it
/// stays. It succeeds once all of that is done, and not before.
pub proof fn starting(
    macos: bool,
    was: bool,
    last_error: Option<Seq<char>>,
    outcomes: Seq<Outcome<Seq<char>>>,
)
    requires
        all_fine(outcomes),
        ({
            let r = if macos {
                5int
            } else {
                6int
            };
            let last = if was {
                r + 9
            } else {
                r + 8
            };
            &&& outcomes.len() > r ==> outcomes[r] == (Outcome::State { running: was, last_error })
            &&& outcomes.len() > last ==> !(outcomes[last] matches Outcome::State {
                running: false,
                last_error: _,
            })
        }),
    ensures
        ({
            let tasks = seq![
                Task::<Seq<char>>::MigrateConfig,
                Task::<Seq<char>>::LoadConfig,
                Task::<Seq<char>>::RequireRights(true),
                Task::<Seq<char>>::AddLoopbackAlias,
                Task::<Seq<char>>::EnsureBundle,
            ] + (if macos {
                Seq::empty()
            } else {
                seq![Task::<Seq<char>>::InstallRoot]
            }) + seq![Task::<Seq<char>>::ReconcileState] + (if was {
                seq![Task::<Seq<char>>::StopDaemon]
            } else {
                Seq::empty()
            }) + seq![
                Task::<Seq<char>>::ApplyHosts,
                Task::<Seq<char>>::FlushDns,
                Task::<Seq<char>>::MarkStarting,
                Task::<Seq<char>>::SpawnDaemon,
                Task::<Seq<char>>::RecordPid,
                Task::<Seq<char>>::AwaitRunning,
                Task::<Seq<char>>::Pause(800),
                Task::<Seq<char>>::ReconcileState,
            ];
            &&& outcomes.len() < tasks.len() ==> next_start(macos, outcomes) == Next::Do(
                tasks[outcomes.len() as int],
            )
            &&& outcomes.len() >= tasks.len() ==> next_start(macos, outcomes) is Succeeded
            &&& start_error(macos, outcomes) is None
        }),
{
    let steps = start_plan(macos, runs_already(macos, outcomes));
    assert forall|i: int| 0 <= i < steps_done(steps, outcomes) implies (#[trigger] judge(
        steps[i],
        outcomes[i],
    )) is Fine by {
        assert(fine(outcomes[i]));
    }
    no_issue_so_far(steps, outcomes, steps_done(steps, outcomes));
    going_well(steps, outcomes);
}

proof fn start_ended(
    macos: bool,
    outcomes: Seq<Outcome<Seq<char>>>,
    k: int,
    error: Seq<char>,
)
    requires
        ({
            let steps = start_plan(macos, runs_already(macos, outcomes));
            &&& 0 <= k < steps_done(steps, outcomes)
            &&& forall|i: int| 0 <= i < k ==> (#[trigger] judge(steps[i], outcomes[i])) is Fine
            &&& judge(steps[k], outcomes[k]) == (Verdict::Abort { error, reconcile: false })
        }),
    ensures
        ({
            let steps = start_plan(macos, runs_already(macos, outcomes));
            ended_at(steps, outcomes, steps_done(steps, outcomes)) == Some(k)
        }),
{
    let steps = start_plan(macos, runs_already(macos, outcomes));
    no_issue_so_far(steps, outcomes, k as nat);
    assert(ended_at(steps, outcomes, (k + 1) as nat) == Some(k));
    ended_stays(steps, outcomes, (k + 1) as nat, steps_done(steps, outcomes));
}

proof fn start_step_shape(macos: bool, run: bool, i: int)
    requires
        0 <= i < start_plan(macos, run).len(),
    ensures
        i < start_plan(macos, run).len() - 1 ==> start_plan(macos, run)[i].on_state is Any,
        start_plan(macos, run)[i].on_failure is Abort <==> i != (if macos {
            7int
        } else {
            8int
        }) + (if run {
            1int
        } else {
            0int
        }),
{
}

proof fn start_plan_len(macos: bool, run: bool)
    ensures
        start_plan(macos, run).len() == (if macos {
            14int
        } else {
            15int
        }) + (if run {
            1int
        } else {
            0int
        }),
{
}

proof fn start_fails_at(
    macos: bool,
    was: bool,
    outcomes: Seq<Outcome<Seq<char>>>,
    k: int,
    error: Seq<char>,
)
    requires
        ({
            let r = if macos {
                5int
            } else {
                6int
            };
            let flush = if was {
                r + 3
            } else {
                r + 2
            };
            &&& 0 <= k < outcomes.len()
            &&& k <= flush + 6
            &&& k != flush
            &&& k > r ==> runs_already(macos, outcomes) == was
        }),
        all_fine(outcomes.take(k)),
        outcomes[k] == Outcome::Failed(error),
    ensures
        ({
            let steps = start_plan(macos, runs_already(macos, outcomes));
            &&& ended_at(steps, outcomes, steps_done(steps, outcomes)) == Some(k)
            &&& judge(steps[k], outcomes[k]) == (Verdict::Abort { error, reconcile: false })
        }),
{
    let run = runs_already(macos, outcomes);
    let steps = start_plan(macos, run);
    start_plan_len(macos, run);
    assert forall|i: int| 0 <= i < k implies (#[trigger] judge(steps[i], outcomes[i])) is Fine by {
        assert(fine(outcomes.take(k)[i]));
        start_step_shape(macos, run, i);
    }
    start_step_shape(macos, run, k);
    start_ended(macos, outcomes, k, error);
}

/// If a task fails while the service is started, the command fails at once as long
/// as there is no configuration. After that it is found out whether the service runs
/// all the same: then the command succeeds; else the managed lines are removed, the
/// address is taken back, the process is forgotten and the error noted, and then the
/// command fails with it. Flushing the cache of the system's resolver may fail.
pub proof fn starting_can_fail(
    macos: bool,
    was: bool,
    last_error: Option<Seq<char>>,
    outcomes: Seq<Outcome<Seq<char>>>,
    k: int,
    error: Seq<char>,
)
    requires
        ({
            let r = if macos {
                5int
            } else {
                6int
            };
            let flush = if was {
                r + 3
            } else {
                r + 2
            };
            &&& 0 <= k < outcomes.len()
            &&& k <= flush + 6
            &&& k != flush
            &&& k > r ==> outcomes[r] == (Outcome::State { running: was, last_error })
        }),
        all_fine(outcomes.take(k)),
        outcomes[k] == Outcome::Failed(error),
    ensures
        start_error(macos, outcomes) == Some(error),
        k < 2 ==> next_start(macos, outcomes) == Next::Failed(error),
        k >= 2 ==> {
            let found = outcomes[k + 1];
            let runs = found matches Outcome::State { running: true, last_error: _ };
            let after = outcomes.len() - k;
            &&& after == 1 ==> next_start(macos, outcomes) == Next::Do(
                Task::<Seq<char>>::ReconcileState,
            )
            &&& after > 1 && runs ==> next_start(macos, outcomes) is Succeeded
            &&& after == 2 && !runs ==> next_start(macos, outcomes) == Next::Do(
                Task::<Seq<char>>::RemoveHosts,
            )
            &&& after == 3 && !runs ==> next_start(macos, outcomes) == Next::Do(
                Task::<Seq<char>>::RemoveLoopbackAlias,
            )
            &&& after == 4 && !runs ==> next_start(macos, outcomes) == Next::Do(
                Task::<Seq<char>>::ClearPid,
            )
            &&& after == 5 && !runs ==> next_start(macos, outcomes) == Next::Do(
                Task::<Seq<char>>::MarkError(error),
            )
            &&& after > 5 && !runs ==> next_start(macos, outcomes) == Next::Failed(error)
        },
{
    start_fails_at(macos, was, outcomes, k, error);
    assert(rollback(error).len() == 4);
}

/// A failure to flush the cache of the system's resolver is no obstacle.
pub proof fn starting_goes_on_without_a_flush(
    macos: bool,
    was: bool,
    last_error: Option<Seq<char>>,
    outcomes: Seq<Outcome<Seq<char>>>,
    error: Seq<char>,
)
    requires
        last_failed(outcomes, error),
        ({
            let r = if macos {
                5int
            } else {
                6int
            };
            &&& outcomes.len() == if was {
                r + 4
            } else {
                r + 3
            }
            &&& outcomes[r] == (Outcome::State { running: was, last_error })
        }),
    ensures
        next_start(macos, outcomes) == Next::Do(Task::<Seq<char>>::MarkStarting),
{
    let steps = start_plan(macos, runs_already(macos, outcomes));
    assert forall|i: int| 0 <= i < outcomes.len() - 1 implies (#[trigger] judge(
        steps[i],
        outcomes[i],
    )) is Fine by {
        assert(fine(outcomes.drop_last()[i]));
    }
    no_issue_so_far(steps, outcomes, (outcomes.len() - 1) as nat);
    going_wrong(steps, outcomes, error);
}

/// A process that was started but is not there any more is a failure, with the last
/// error that it noted.
pub proof fn a_service_that_went_away_did_not_start(
    macos: bool,
    was: bool,
    before: Option<Seq<char>>,
    last_error: Option<Seq<char>>,
    outcomes: Seq<Outcome<Seq<char>>>,
)
    requires
        outcomes.len() > 0,
        all_fine(outcomes.drop_last()),
        outcomes.last() == (Outcome::State { running: false, last_error }),
        ({
            let r = if macos {
                5int
            } else {
                6int
            };
            &&& outcomes.len() == if was {
                r + 10
            } else {
                r + 9
            }
            &&& outcomes[r] == (Outcome::State { running: was, last_error: before })
        }),
    ensures
        start_error(macos, outcomes) == Some(
            match last_error {
                Some(error) => error,
                None => "accelerator daemon exited unexpectedly"@,
            },
        ),
        next_start(macos, outcomes) == Next::Do(Task::<Seq<char>>::ReconcileState),
{
    let steps = start_plan(macos, runs_already(macos, outcomes));
    let k = outcomes.len() - 1;
    let error = match last_error {
        Some(error) => error,
        None => "accelerator daemon exited unexpectedly"@,
    };
    assert forall|i: int| 0 <= i < k implies (#[trigger] judge(steps[i], outcomes[i])) is Fine by {
        assert(fine(outcomes.drop_last()[i]));
    }
    assert(steps[k].on_state is MustRun);
    assert(judge(steps[k], outcomes[k]) == (Verdict::Abort { error, reconcile: false }));
    start_ended(macos, outcomes, k, error);
}

} // verus!
