//! What the outcome of a step means, for every step of every plan.
use vstd::prelude::*;
use crate::plan::{
    going, issues, judge, next_in_plan, note, steps_done, task_of, was_running, Job, Next,
    OnFailure, OnState, Outcome, Step, Task, Verdict,
};
use crate::text::join;

verus! {

/// What was done is fine, whatever the step.
pub proof fn what_is_done_is_fine(step: Step<Seq<char>>, text: Seq<char>)
    ensures
        judge(step, Outcome::Done) is Fine,
        judge(step, Outcome::Noted { note: text, warning: None }) is Fine,
{
}

/// A failure ends the command, counts for nothing, or is an issue that is told with what
/// the step says before it: as the step has it.
pub proof fn what_a_failure_means(step: Step<Seq<char>>, error: Seq<char>)
    ensures
        step.on_failure is Abort ==> judge(step, Outcome::Failed(error)) == (Verdict::Abort {
            error,
            reconcile: false,
        }),
        step.on_failure is Ignore ==> judge(step, Outcome::Failed(error)) is Fine,
        step.on_failure matches OnFailure::Collect(prefix) ==> judge(step, Outcome::Failed(error))
            == Verdict::Issue(prefix + error),
{
}

/// Something that is left undone ends the command, at once or after a look at the service,
/// counts for nothing, or is an issue: as the step has it. A warning is as much as that.
pub proof fn what_something_left_undone_means(
    step: Step<Seq<char>>,
    issue: Seq<char>,
    text: Seq<char>,
)
    ensures
        step.on_issue is Abort ==> judge(step, Outcome::Issue(issue)) == (Verdict::Abort {
            error: issue,
            reconcile: false,
        }),
        step.on_issue is AbortAfterReconcile ==> judge(step, Outcome::Issue(issue)) == (
        Verdict::Abort { error: issue, reconcile: true }),
        step.on_issue is Ignore ==> judge(step, Outcome::Issue(issue)) is Fine,
        step.on_issue is Collect ==> judge(step, Outcome::Issue(issue)) == Verdict::Issue(issue),
        judge(step, Outcome::Noted { note: text, warning: Some(issue) }) == judge(
            step,
            Outcome::Issue(issue),
        ),
{
}

/// A service that has to run and does not ends the command, with its last error or else
/// with the words of the step; one that must not run and does ends it with those words.
pub proof fn what_a_state_means(
    step: Step<Seq<char>>,
    last_error: Option<Seq<char>>,
    error: Seq<char>,
    text: Seq<char>,
)
    ensures
        step.on_state is Any ==> judge(step, Outcome::State { running: true, last_error }) is Fine
            && judge(step, Outcome::State { running: false, last_error }) is Fine,
        step.on_state == OnState::MustRun(text) ==> {
            &&& judge(step, Outcome::State { running: true, last_error }) is Fine
            &&& judge(step, Outcome::State { running: false, last_error: Some(error) }) == (
            Verdict::Abort { error, reconcile: false })
            &&& judge(step, Outcome::State { running: false, last_error: None }) == (
            Verdict::Abort { error: text, reconcile: false })
        },
        step.on_state == OnState::MustBeStopped(text) ==> {
            &&& judge(step, Outcome::State { running: false, last_error }) is Fine
            &&& judge(step, Outcome::State { running: true, last_error }) == (Verdict::Abort {
                error: text,
                reconcile: false,
            })
        },
{
}

/// A report says what there is to say: the one text or the other by what is left undone,
/// with what was noted behind it, or by whether the service ran.
pub proof fn what_a_report_says(
    clean: Seq<char>,
    troubled: Seq<char>,
    found: Seq<Seq<char>>,
    noted: Seq<char>,
    ran: bool,
    task: Task<Seq<char>>,
)
    ensures
        found.len() == 0 ==> task_of(Job::ReportByIssues { clean, troubled }, found, noted, ran)
            == Task::MarkStopped(clean + noted),
        found.len() > 0 ==> task_of(Job::ReportByIssues { clean, troubled }, found, noted, ran)
            == Task::MarkStopped(troubled + noted),
        task_of(
            Job::ReportByRunning { running: clean, stopped: troubled },
            found,
            noted,
            true,
        ) == Task::MarkStopped(clean),
        task_of(
            Job::ReportByRunning { running: clean, stopped: troubled },
            found,
            noted,
            false,
        ) == Task::MarkStopped(troubled),
        task_of(Job::Do(task), found, noted, ran) == task,
{
}

/// Each issue is kept once, in the order of the steps.
pub proof fn issues_come_in_the_order_of_the_steps(
    steps: Seq<Step<Seq<char>>>,
    outcomes: Seq<Outcome<Seq<char>>>,
    n: nat,
    issue: Seq<char>,
)
    ensures
        judge(steps[n as int], outcomes[n as int]) == Verdict::Issue(issue) ==> issues(
            steps,
            outcomes,
            n + 1,
        ) == issues(steps, outcomes, n) + seq![issue],
        !(judge(steps[n as int], outcomes[n as int]) is Issue) ==> issues(steps, outcomes, n + 1)
            == issues(steps, outcomes, n),
        issues(steps, outcomes, 0).len() == 0,
{
    assert(issues(steps, outcomes, n).push(issue) =~= issues(steps, outcomes, n) + seq![issue]);
}

/// A command that was done with but left something undone fails with all of it, with
/// semicolons between.
pub proof fn what_is_left_is_told_at_the_end(
    steps: Seq<Step<Seq<char>>>,
    outcomes: Seq<Outcome<Seq<char>>>,
)
    requires
        outcomes.len() >= steps.len(),
        going(steps, outcomes, steps.len() as int),
        issues(steps, outcomes, steps.len()).len() > 0,
    ensures
        next_in_plan(steps, outcomes) == Next::Failed(
            join(issues(steps, outcomes, steps.len()), "; "@),
        ),
{
    crate::plan::ended_at_is_the_first(steps, outcomes, steps_done(steps, outcomes));
}

/// As long as nothing ended the command, what is next is the job of the next step, with
/// what is known by then.
pub proof fn the_next_job_is_that_of_the_next_step(
    steps: Seq<Step<Seq<char>>>,
    outcomes: Seq<Outcome<Seq<char>>>,
)
    requires
        outcomes.len() < steps.len(),
        going(steps, outcomes, outcomes.len() as int),
    ensures
        next_in_plan(steps, outcomes) == Next::Do(
            task_of(
                steps[outcomes.len() as int].job,
                issues(steps, outcomes, outcomes.len()),
                note(outcomes, outcomes.len()),
                was_running(outcomes, outcomes.len()),
            ),
        ),
{
    crate::plan::ended_at_is_the_first(steps, outcomes, outcomes.len());
}

/// Where a look at the service is wanted before the command fails, it comes at once, and
/// then the command fails; where it is not, the command fails at once.
pub proof fn an_end_may_wait_for_a_look(
    steps: Seq<Step<Seq<char>>>,
    outcomes: Seq<Outcome<Seq<char>>>,
    k: int,
    error: Seq<char>,
    reconcile: bool,
)
    requires
        0 <= k < steps.len(),
        k < outcomes.len(),
        going(steps, outcomes, k),
        judge(steps[k], outcomes[k]) == (Verdict::Abort { error, reconcile }),
    ensures
        !reconcile || outcomes.len() > k + 1 ==> next_in_plan(steps, outcomes) == Next::Failed(
            error,
        ),
        reconcile && outcomes.len() == k + 1 ==> next_in_plan(steps, outcomes) == Next::Do(
            Task::<Seq<char>>::ReconcileState,
        ),
{
    let n = steps_done(steps, outcomes);
    crate::plan::ended_at_is_the_first(steps, outcomes, k as nat);
    assert(crate::plan::ended_at(steps, outcomes, (k + 1) as nat) == Some(k));
    crate::plan::ended_stays(steps, outcomes, (k + 1) as nat, n);
}

} // verus!
