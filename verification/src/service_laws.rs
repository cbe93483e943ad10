//! What holds of the commands, whatever comes of their steps.
use vstd::prelude::*;
use crate::plan::{
    ended_at, ended_at_is_the_first, ended_stays, going, issues, judge, next_in_plan,
    steps_done, Job, Next, Outcome, Step, Task, Verdict,
};
use crate::service::{
    apply_hosts_only_plan, clean_hosts_plan, cleanup_plan, helper_stop_plan, must, next_start,
    reconcile_place, restore_hosts_plan, rollback, run_foreground_plan, runs_already,
    setup_plan, start_error, start_plan, uninstall_certificate_plan,
};

verus! {

/// The task changes the system, and not only what the accelerator notes about
/// itself.
pub open spec fn changes_system(task: Task<Seq<char>>) -> bool {
    match task {
        Task::AddLoopbackAlias => true,
        Task::RemoveLoopbackAlias => true,
        Task::InstallRoot => true,
        Task::UninstallRoot => true,
        Task::ApplyHosts => true,
        Task::RemoveHosts => true,
        Task::RestoreHosts => true,
        Task::CleanUpHosts => true,
        Task::RestoreHostsAfterStop => true,
        Task::Terminate => true,
        Task::StopDaemon => true,
        Task::SpawnDaemon => true,
        _ => false,
    }
}

/// Raised rights were asked for by a step of the plan, and that did not fail.
pub open spec fn granted(steps: Seq<Step<Seq<char>>>, outcomes: Seq<Outcome<Seq<char>>>) -> bool {
    exists|i: int|
        #![trigger steps[i]]
        0 <= i < outcomes.len() && i < steps.len() && (exists|b: bool|
            steps[i] == #[trigger] must(Task::RequireRights(b))) && !(outcomes[i] is Failed)
}

/// If the plan does something that changes the system, it has raised rights.
pub open spec fn changes_with_rights(
    steps: Seq<Step<Seq<char>>>,
    outcomes: Seq<Outcome<Seq<char>>>,
) -> bool {
    next_in_plan(steps, outcomes) matches Next::Do(task) ==> changes_system(task) ==> granted(
        steps,
        outcomes,
    )
}

proof fn rights_come_first(
    steps: Seq<Step<Seq<char>>>,
    r: int,
    b: bool,
    outcomes: Seq<Outcome<Seq<char>>>,
)
    requires
        0 <= r < steps.len(),
        steps[r] == must(Task::RequireRights(b)),
        forall|i: int|
            0 <= i <= r ==> ((#[trigger] steps[i]).job matches Job::Do(t) && !changes_system(t)),
    ensures
        changes_with_rights(steps, outcomes),
{
    let n = steps_done(steps, outcomes);
    ended_at_is_the_first(steps, outcomes, n);
    if let Next::Do(task) = next_in_plan(steps, outcomes) {
        if changes_system(task) {
            assert(n < steps.len());
            assert(n > r) by {
                if n <= r {
                    assert(steps[n as int].job is Do);
                }
            }
            assert(!(judge(steps[r], outcomes[r]) is Abort));
            assert(steps[r] == must(Task::RequireRights(b)));
        }
    }
}

/// No command that needs raised rights changes the system without them.
pub proof fn the_system_is_changed_with_rights(
    outcomes: Seq<Outcome<Seq<char>>>,
    with_setup: bool,
    macos: bool,
    was_running: bool,
)
    ensures
        changes_with_rights(setup_plan(), outcomes),
        changes_with_rights(run_foreground_plan(with_setup), outcomes),
        changes_with_rights(start_plan(macos, was_running), outcomes),
        changes_with_rights(helper_stop_plan(), outcomes),
        changes_with_rights(cleanup_plan(), outcomes),
        changes_with_rights(clean_hosts_plan(), outcomes),
        changes_with_rights(apply_hosts_only_plan(), outcomes),
        changes_with_rights(restore_hosts_plan(), outcomes),
        changes_with_rights(uninstall_certificate_plan(), outcomes),
{
    rights_come_first(setup_plan(), 2, true, outcomes);
    rights_come_first(run_foreground_plan(with_setup), 2, with_setup, outcomes);
    rights_come_first(start_plan(macos, was_running), 2, true, outcomes);
    rights_come_first(helper_stop_plan(), 1, true, outcomes);
    rights_come_first(cleanup_plan(), 1, true, outcomes);
    rights_come_first(clean_hosts_plan(), 1, true, outcomes);
    rights_come_first(apply_hosts_only_plan(), 1, true, outcomes);
    rights_come_first(restore_hosts_plan(), 1, true, outcomes);
    rights_come_first(uninstall_certificate_plan(), 1, true, outcomes);
}

/// The managed lines are not removed by `clean_hosts` while the service runs:
/// the command fails.
pub proof fn hosts_are_not_cleaned_under_a_running_service(
    outcomes: Seq<Outcome<Seq<char>>>,
    last_error: Option<Seq<char>>,
)
    requires
        outcomes.len() > 2,
        outcomes[2] == (Outcome::State { running: true, last_error }),
    ensures
        next_in_plan(clean_hosts_plan(), outcomes) is Failed,
{
    let steps = clean_hosts_plan();
    let n = steps_done(steps, outcomes);
    ended_at_is_the_first(steps, outcomes, n);
    assert(judge(steps[2], outcomes[2]) is Abort);
    assert(!going(steps, outcomes, n as int));
    let k = ended_at(steps, outcomes, n)->0;
    assert(k <= 2) by {
        if k > 2 {
            assert(!(judge(steps[2], outcomes[2]) is Abort));
        }
    }
    assert(steps[k] == steps[0] || steps[k] == steps[1] || steps[k] == steps[2]);
}

/// If the service cannot be ended, stopping it changes nothing else: it is
/// only found out whether it runs, and then the command fails with the issue.
pub proof fn hosts_are_kept_for_a_service_that_will_not_end(
    outcomes: Seq<Outcome<Seq<char>>>,
    issue: Seq<char>,
)
    requires
        outcomes.len() > 2,
        !(outcomes[0] is Failed),
        !(outcomes[1] is Failed),
        outcomes[2] == Outcome::Issue(issue),
    ensures
        outcomes.len() == 3 ==> next_in_plan(helper_stop_plan(), outcomes) == Next::Do(
            Task::<Seq<char>>::ReconcileState,
        ),
        outcomes.len() > 3 ==> next_in_plan(helper_stop_plan(), outcomes) == Next::Failed(issue),
{
    let steps = helper_stop_plan();
    let n = steps_done(steps, outcomes);
    ended_at_is_the_first(steps, outcomes, n);
    assert(judge(steps[2], outcomes[2]) is Abort);
    assert(!going(steps, outcomes, n as int));
    let k = ended_at(steps, outcomes, n)->0;
    assert(k <= 2) by {
        if k > 2 {
            assert(!(judge(steps[2], outcomes[2]) is Abort));
        }
    }
}

/// A full cleanup leaves nothing out: once the configuration is read and the
/// rights are there, and unless it cannot even be found out which process the
/// service is, every step is done, whatever fails, and each failure is told at
/// the end. (The step about the hosts file notes what it left undone.)
pub proof fn a_cleanup_goes_on_to_the_end(outcomes: Seq<Outcome<Seq<char>>>)
    requires
        forall|i: int| 0 <= i < 4 && i < outcomes.len() ==> !(#[trigger] outcomes[i] is Failed),
    ensures
        outcomes.len() < cleanup_plan().len() ==> next_in_plan(cleanup_plan(), outcomes) is Do,
        outcomes.len() >= cleanup_plan().len() ==> (next_in_plan(cleanup_plan(), outcomes)
            is Succeeded <==> issues(cleanup_plan(), outcomes, cleanup_plan().len()).len() == 0),
{
    let steps = cleanup_plan();
    let n = steps_done(steps, outcomes);
    ended_at_is_the_first(steps, outcomes, n);
    assert forall|i: int| 0 <= i < n implies !(#[trigger] judge(steps[i], outcomes[i])
        is Abort) by {
        if i < 4 {
            assert(!(outcomes[i] is Failed));
        }
    }
}

/// If starting the service fails, and it does not run all the same, what was
/// done is undone, step by step, and then the command fails with that error.
pub proof fn a_failed_start_is_undone(
    macos: bool,
    outcomes: Seq<Outcome<Seq<char>>>,
    k: int,
    error: Seq<char>,
)
    requires
        ({
            let steps = start_plan(macos, runs_already(macos, outcomes));
            &&& 2 <= k < steps_done(steps, outcomes)
            &&& going(steps, outcomes, k)
            &&& judge(steps[k], outcomes[k]) == (Verdict::Abort { error, reconcile: false })
        }),
        outcomes.len() > k + 1,
        !(outcomes[k + 1] matches Outcome::State { running: true, last_error: _ }),
    ensures
        outcomes.len() <= k + 5 ==> next_start(macos, outcomes) == Next::Do(
            rollback(error)[outcomes.len() - (k + 2)],
        ),
        outcomes.len() > k + 5 ==> next_start(macos, outcomes) == Next::Failed(error),
{
    let steps = start_plan(macos, runs_already(macos, outcomes));
    let n = steps_done(steps, outcomes);
    ended_at_is_the_first(steps, outcomes, k as nat);
    assert(ended_at(steps, outcomes, (k + 1) as nat) == Some(k));
    ended_stays(steps, outcomes, (k + 1) as nat, n);
}

/// A start that reports an error while the service runs counts as a success,
/// and nothing is undone. The error is still known.
pub proof fn a_running_service_is_left_alone(
    macos: bool,
    outcomes: Seq<Outcome<Seq<char>>>,
    k: int,
    last_error: Option<Seq<char>>,
)
    requires
        ({
            let steps = start_plan(macos, runs_already(macos, outcomes));
            &&& 2 <= k < steps_done(steps, outcomes)
            &&& going(steps, outcomes, k)
            &&& judge(steps[k], outcomes[k]) is Abort
        }),
        outcomes.len() > k + 1,
        outcomes[k + 1] == (Outcome::State { running: true, last_error }),
    ensures
        next_start(macos, outcomes) is Succeeded,
        start_error(macos, outcomes) == Some(
            judge(
                start_plan(macos, runs_already(macos, outcomes))[k],
                outcomes[k],
            )->error,
        ),
{
    let steps = start_plan(macos, runs_already(macos, outcomes));
    let n = steps_done(steps, outcomes);
    ended_at_is_the_first(steps, outcomes, k as nat);
    assert(ended_at(steps, outcomes, (k + 1) as nat) == Some(k));
    ended_stays(steps, outcomes, (k + 1) as nat, n);
}

/// A service that runs already is ended before the hosts file is changed and
/// another is started; one that does not is not looked for again.
pub proof fn an_old_service_is_replaced(macos: bool)
    ensures
        start_plan(macos, true)[reconcile_place(macos) + 1] == must(Task::StopDaemon),
        start_plan(macos, false)[reconcile_place(macos) + 1] == must(Task::ApplyHosts),
        forall|was: bool|
            (#[trigger] start_plan(macos, was)).take(reconcile_place(macos) + 1) == start_plan(
                macos,
                true,
            ).take(reconcile_place(macos) + 1),
{
    assert(start_plan(macos, false).take(reconcile_place(macos) + 1) =~= start_plan(
        macos,
        true,
    ).take(reconcile_place(macos) + 1));
}

} // verus!
