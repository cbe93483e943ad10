//! Commands as plans: a list of steps, each with what is to be done and what
//! happens if it fails. Somebody else does the steps, and says what came of
//! each; the plan says what is next.
use vstd::prelude::*;
use crate::text::{join, join_texts, joined, option_text, texts};

verus! {

// ---------------------------------------------------------------------------
// Steps
// ---------------------------------------------------------------------------
/// What can be done, with texts as `S`.
pub enum Task<S> {
    /// Bring an old configuration up to date.
    MigrateConfig,
    /// Read the configuration, or create the default one.
    LoadConfig,
    /// Make sure of raised rights, for setting up or only for listening.
    RequireRights(bool),
    /// Make the address to listen on available.
    AddLoopbackAlias,
    /// Take that address back.
    RemoveLoopbackAlias,
    /// Make sure that the certificates are good.
    EnsureBundle,
    /// Find the certificates.
    LoadBundle,
    /// Have the system trust the root certificate, under the configured name.
    InstallRoot,
    /// Take that trust back.
    UninstallRoot,
    /// Put the managed lines into the hosts file.
    ApplyHosts,
    /// Remove the managed lines from the hosts file.
    RemoveHosts,
    /// Make sure that there is a backup of the hosts file.
    BackUpHosts,
    /// Put the backup in the place of the hosts file.
    RestoreHosts,
    /// Undo what was done to the hosts file, and clear a broken backup.
    CleanUpHosts,
    /// Undo what was done to the hosts file.
    RestoreHostsAfterStop,
    /// Flush the cache of the system's resolver.
    FlushDns,
    /// Read the state of the service.
    RefreshState,
    /// Find out whether the service runs, whatever its state says.
    ReconcileState,
    /// End the process of the service.
    Terminate,
    /// End the process of the service so that another can take its place.
    StopDaemon,
    /// Start the process of the service.
    SpawnDaemon,
    /// Note which process that is.
    RecordPid,
    /// Note that this process is the service.
    RecordOwnPid,
    /// Forget that this process is the service.
    ClearOwnPid,
    /// Wait until the service runs.
    AwaitRunning,
    /// Wait for so many milliseconds.
    Pause(u64),
    /// Forget which process the service is.
    ClearPid,
    /// Forget the user interface.
    ClearUiLease,
    /// Clean up after the user interface is gone.
    CleanUpAfterUi,
    /// Note that the service is starting.
    MarkStarting,
    /// Note that this process runs as the service.
    MarkRunning,
    /// Note that the service is stopped, with this message.
    MarkStopped(S),
    /// Note that the service failed, with this error.
    MarkError(S),
}

impl View for Task<String> {
    type V = Task<Seq<char>>;

    open spec fn view(&self) -> Task<Seq<char>> {
        match *self {
            Task::MigrateConfig => Task::MigrateConfig,
            Task::LoadConfig => Task::LoadConfig,
            Task::RequireRights(flag) => Task::RequireRights(flag),
            Task::AddLoopbackAlias => Task::AddLoopbackAlias,
            Task::RemoveLoopbackAlias => Task::RemoveLoopbackAlias,
            Task::EnsureBundle => Task::EnsureBundle,
            Task::LoadBundle => Task::LoadBundle,
            Task::InstallRoot => Task::InstallRoot,
            Task::UninstallRoot => Task::UninstallRoot,
            Task::ApplyHosts => Task::ApplyHosts,
            Task::RemoveHosts => Task::RemoveHosts,
            Task::BackUpHosts => Task::BackUpHosts,
            Task::RestoreHosts => Task::RestoreHosts,
            Task::CleanUpHosts => Task::CleanUpHosts,
            Task::RestoreHostsAfterStop => Task::RestoreHostsAfterStop,
            Task::FlushDns => Task::FlushDns,
            Task::RefreshState => Task::RefreshState,
            Task::ReconcileState => Task::ReconcileState,
            Task::Terminate => Task::Terminate,
            Task::StopDaemon => Task::StopDaemon,
            Task::SpawnDaemon => Task::SpawnDaemon,
            Task::RecordPid => Task::RecordPid,
            Task::RecordOwnPid => Task::RecordOwnPid,
            Task::ClearOwnPid => Task::ClearOwnPid,
            Task::AwaitRunning => Task::AwaitRunning,
            Task::Pause(millis) => Task::Pause(millis),
            Task::ClearPid => Task::ClearPid,
            Task::ClearUiLease => Task::ClearUiLease,
            Task::CleanUpAfterUi => Task::CleanUpAfterUi,
            Task::MarkStarting => Task::MarkStarting,
            Task::MarkRunning => Task::MarkRunning,
            Task::MarkStopped(text) => Task::MarkStopped(text@),
            Task::MarkError(text) => Task::MarkError(text@),
        }
    }
}

impl Task<String> {
    /// A copy of the task.
    pub fn duplicate(&self) -> (copy: Task<String>)
        ensures
            copy@ == self@,
    {
        match self {
            Task::MigrateConfig => Task::MigrateConfig,
            Task::LoadConfig => Task::LoadConfig,
            Task::RequireRights(flag) => Task::RequireRights(*flag),
            Task::AddLoopbackAlias => Task::AddLoopbackAlias,
            Task::RemoveLoopbackAlias => Task::RemoveLoopbackAlias,
            Task::EnsureBundle => Task::EnsureBundle,
            Task::LoadBundle => Task::LoadBundle,
            Task::InstallRoot => Task::InstallRoot,
            Task::UninstallRoot => Task::UninstallRoot,
            Task::ApplyHosts => Task::ApplyHosts,
            Task::RemoveHosts => Task::RemoveHosts,
            Task::BackUpHosts => Task::BackUpHosts,
            Task::RestoreHosts => Task::RestoreHosts,
            Task::CleanUpHosts => Task::CleanUpHosts,
            Task::RestoreHostsAfterStop => Task::RestoreHostsAfterStop,
            Task::FlushDns => Task::FlushDns,
            Task::RefreshState => Task::RefreshState,
            Task::ReconcileState => Task::ReconcileState,
            Task::Terminate => Task::Terminate,
            Task::StopDaemon => Task::StopDaemon,
            Task::SpawnDaemon => Task::SpawnDaemon,
            Task::RecordPid => Task::RecordPid,
            Task::RecordOwnPid => Task::RecordOwnPid,
            Task::ClearOwnPid => Task::ClearOwnPid,
            Task::AwaitRunning => Task::AwaitRunning,
            Task::Pause(millis) => Task::Pause(*millis),
            Task::ClearPid => Task::ClearPid,
            Task::ClearUiLease => Task::ClearUiLease,
            Task::CleanUpAfterUi => Task::CleanUpAfterUi,
            Task::MarkStarting => Task::MarkStarting,
            Task::MarkRunning => Task::MarkRunning,
            Task::MarkStopped(text) => Task::MarkStopped(text.clone()),
            Task::MarkError(text) => Task::MarkError(text.clone()),
        }
    }
}

/// What a step is about.
pub enum Job<S> {
    /// This is done.
    Do(Task<S>),
    /// The service is marked as stopped, with the first text if there were no
    /// issues and the second else, and what was noted about the hosts file.
    ReportByIssues { clean: S, troubled: S },
    /// The service is marked as stopped, with the first text if it was running
    /// before and the second else.
    ReportByRunning { running: S, stopped: S },
}

/// What happens if a step fails.
pub enum OnFailure<S> {
    /// The command fails.
    Abort,
    /// Nothing.
    Ignore,
    /// It counts as an issue, behind this text.
    Collect(S),
}

/// What happens if a step leaves something undone.
#[derive(Clone, Copy, Debug, PartialEq, Eq, Structural)]
pub enum OnIssue {
    /// The command fails.
    Abort,
    /// The command fails, after it was found out whether the service runs.
    AbortAfterReconcile,
    /// Nothing.
    Ignore,
    /// It counts as an issue.
    Collect,
}

/// What happens if a step finds the service running or not.
pub enum OnState<S> {
    /// Nothing.
    Any,
    /// The command fails if it does not run: with its last error, or else with
    /// this text.
    MustRun(S),
    /// The command fails with this text if it runs.
    MustBeStopped(S),
}

/// One step of a plan.
pub struct Step<S> {
    pub job: Job<S>,
    pub on_failure: OnFailure<S>,
    pub on_issue: OnIssue,
    pub on_state: OnState<S>,
}

impl View for Step<String> {
    type V = Step<Seq<char>>;

    open spec fn view(&self) -> Step<Seq<char>> {
        Step {
            job: match self.job {
                Job::Do(task) => Job::Do(task@),
                Job::ReportByIssues { clean, troubled } => Job::ReportByIssues {
                    clean: clean@,
                    troubled: troubled@,
                },
                Job::ReportByRunning { running, stopped } => Job::ReportByRunning {
                    running: running@,
                    stopped: stopped@,
                },
            },
            on_failure: match self.on_failure {
                OnFailure::Abort => OnFailure::Abort,
                OnFailure::Ignore => OnFailure::Ignore,
                OnFailure::Collect(prefix) => OnFailure::Collect(prefix@),
            },
            on_issue: self.on_issue,
            on_state: match self.on_state {
                OnState::Any => OnState::Any,
                OnState::MustRun(text) => OnState::MustRun(text@),
                OnState::MustBeStopped(text) => OnState::MustBeStopped(text@),
            },
        }
    }
}

/// What some steps are.
pub open spec fn step_views(steps: Seq<Step<String>>) -> Seq<Step<Seq<char>>> {
    steps.map_values(|s: Step<String>| s@)
}

/// What came of a step.
pub enum Outcome<S> {
    /// It was done.
    Done,
    /// It failed.
    Failed(S),
    /// It was done, but this is left.
    Issue(S),
    /// This was done, and maybe that is left.
    Noted { note: S, warning: Option<S> },
    /// Whether the service runs, and its last error.
    State { running: bool, last_error: Option<S> },
}

impl View for Outcome<String> {
    type V = Outcome<Seq<char>>;

    open spec fn view(&self) -> Outcome<Seq<char>> {
        match *self {
            Outcome::Done => Outcome::Done,
            Outcome::Failed(error) => Outcome::Failed(error@),
            Outcome::Issue(issue) => Outcome::Issue(issue@),
            Outcome::Noted { note, warning } => Outcome::Noted {
                note: note@,
                warning: option_text(warning),
            },
            Outcome::State { running, last_error } => Outcome::State {
                running,
                last_error: option_text(last_error),
            },
        }
    }
}

/// What some outcomes are.
pub open spec fn outcome_views(outcomes: Seq<Outcome<String>>) -> Seq<Outcome<Seq<char>>> {
    outcomes.map_values(|o: Outcome<String>| o@)
}

/// What is next.
pub enum Next<S> {
    /// This is to be done.
    Do(Task<S>),
    /// The command succeeded.
    Succeeded,
    /// The command failed.
    Failed(S),
}

impl View for Next<String> {
    type V = Next<Seq<char>>;

    open spec fn view(&self) -> Next<Seq<char>> {
        match *self {
            Next::Do(task) => Next::Do(task@),
            Next::Succeeded => Next::Succeeded,
            Next::Failed(error) => Next::Failed(error@),
        }
    }
}

// ---------------------------------------------------------------------------
// Progress
// ---------------------------------------------------------------------------
/// What an outcome means for a command.
pub enum Verdict<S> {
    Fine,
    Issue(S),
    Abort { error: S, reconcile: bool },
}

/// What it means that something is left undone.
pub open spec fn judge_issue(rule: OnIssue, issue: Seq<char>) -> Verdict<Seq<char>> {
    match rule {
        OnIssue::Abort => Verdict::Abort { error: issue, reconcile: false },
        OnIssue::AbortAfterReconcile => Verdict::Abort { error: issue, reconcile: true },
        OnIssue::Ignore => Verdict::Fine,
        OnIssue::Collect => Verdict::Issue(issue),
    }
}

/// What the outcome of a step means for a command.
pub open spec fn judge(step: Step<Seq<char>>, outcome: Outcome<Seq<char>>) -> Verdict<Seq<char>> {
    match outcome {
        Outcome::Done => Verdict::Fine,
        Outcome::Failed(error) => match step.on_failure {
            OnFailure::Abort => Verdict::Abort { error, reconcile: false },
            OnFailure::Ignore => Verdict::Fine,
            OnFailure::Collect(prefix) => Verdict::Issue(prefix + error),
        },
        Outcome::Issue(issue) => judge_issue(step.on_issue, issue),
        Outcome::Noted { note, warning } => match warning {
            None => Verdict::Fine,
            Some(issue) => judge_issue(step.on_issue, issue),
        },
        Outcome::State { running, last_error } => match step.on_state {
            OnState::Any => Verdict::Fine,
            OnState::MustRun(text) => if running {
                Verdict::Fine
            } else {
                Verdict::Abort {
                    error: match last_error {
                        Some(error) => error,
                        None => text,
                    },
                    reconcile: false,
                }
            },
            OnState::MustBeStopped(text) => if running {
                Verdict::Abort { error: text, reconcile: false }
            } else {
                Verdict::Fine
            },
        },
    }
}

/// The first `n` outcomes did not end the command.
pub open spec fn going(
    steps: Seq<Step<Seq<char>>>,
    outcomes: Seq<Outcome<Seq<char>>>,
    n: int,
) -> bool {
    forall|i: int| 0 <= i < n ==> !(#[trigger] judge(steps[i], outcomes[i]) is Abort)
}

/// The issues among the first `n` outcomes.
pub open spec fn issues(
    steps: Seq<Step<Seq<char>>>,
    outcomes: Seq<Outcome<Seq<char>>>,
    n: nat,
) -> Seq<Seq<char>>
    decreases n,
{
    if n == 0 {
        Seq::empty()
    } else {
        let before = issues(steps, outcomes, (n - 1) as nat);
        match judge(steps[n - 1], outcomes[n - 1]) {
            Verdict::Issue(issue) => before.push(issue),
            _ => before,
        }
    }
}

/// What was noted last among the first `n` outcomes.
pub open spec fn note(outcomes: Seq<Outcome<Seq<char>>>, n: nat) -> Seq<char>
    decreases n,
{
    if n == 0 {
        Seq::empty()
    } else {
        match outcomes[n - 1] {
            Outcome::Noted { note, warning: _ } => note,
            _ => note(outcomes, (n - 1) as nat),
        }
    }
}

/// Whether the service ran, when that was found out last among the first `n`
/// outcomes.
pub open spec fn was_running(outcomes: Seq<Outcome<Seq<char>>>, n: nat) -> bool
    decreases n,
{
    if n == 0 {
        false
    } else {
        match outcomes[n - 1] {
            Outcome::State { running, last_error: _ } => running,
            _ => was_running(outcomes, (n - 1) as nat),
        }
    }
}

/// The task that a job comes to.
pub open spec fn task_of(
    job: Job<Seq<char>>,
    found: Seq<Seq<char>>,
    note: Seq<char>,
    running: bool,
) -> Task<Seq<char>> {
    match job {
        Job::Do(task) => task,
        Job::ReportByIssues { clean, troubled } => Task::MarkStopped(
            (if found.len() == 0 {
                clean
            } else {
                troubled
            }) + note,
        ),
        Job::ReportByRunning { running: text, stopped } => Task::MarkStopped(
            if running {
                text
            } else {
                stopped
            },
        ),
    }
}

/// The first place at which the command ended, among the first `n`.
pub open spec fn ended_at(
    steps: Seq<Step<Seq<char>>>,
    outcomes: Seq<Outcome<Seq<char>>>,
    n: nat,
) -> Option<int>
    decreases n,
{
    if n == 0 {
        None
    } else {
        match ended_at(steps, outcomes, (n - 1) as nat) {
            Some(k) => Some(k),
            None => if judge(steps[n - 1], outcomes[n - 1]) is Abort {
                Some(n - 1)
            } else {
                None
            },
        }
    }
}

/// How many steps were done.
pub open spec fn steps_done(
    steps: Seq<Step<Seq<char>>>,
    outcomes: Seq<Outcome<Seq<char>>>,
) -> nat {
    if outcomes.len() < steps.len() {
        outcomes.len()
    } else {
        steps.len()
    }
}

/// What is next in a plan. The steps are done in order until one ends the
/// command; at the end it fails if there are issues, with all of them.
pub open spec fn next_in_plan(
    steps: Seq<Step<Seq<char>>>,
    outcomes: Seq<Outcome<Seq<char>>>,
) -> Next<Seq<char>> {
    let n = steps_done(steps, outcomes);
    match ended_at(steps, outcomes, n) {
        Some(k) => match judge(steps[k], outcomes[k]) {
            Verdict::Abort { error, reconcile } => if reconcile && outcomes.len() == k + 1 {
                Next::Do(Task::ReconcileState)
            } else {
                Next::Failed(error)
            },
            _ => Next::Succeeded,
        },
        None => {
            let found = issues(steps, outcomes, n);
            if n < steps.len() {
                Next::Do(
                    task_of(steps[n as int].job, found, note(outcomes, n), was_running(outcomes, n)),
                )
            } else if found.len() == 0 {
                Next::Succeeded
            } else {
                Next::Failed(join(found, "; "@))
            }
        },
    }
}

fn judge_issue_of(rule: OnIssue, issue: &String) -> (verdict: Verdict<String>)
    ensures
        verdict_view(verdict) == judge_issue(rule, issue@),
{
    match rule {
        OnIssue::Abort => Verdict::Abort { error: issue.clone(), reconcile: false },
        OnIssue::AbortAfterReconcile => Verdict::Abort { error: issue.clone(), reconcile: true },
        OnIssue::Ignore => Verdict::Fine,
        OnIssue::Collect => Verdict::Issue(issue.clone()),
    }
}

/// What a verdict is.
pub open spec fn verdict_view(verdict: Verdict<String>) -> Verdict<Seq<char>> {
    match verdict {
        Verdict::Fine => Verdict::Fine,
        Verdict::Issue(issue) => Verdict::Issue(issue@),
        Verdict::Abort { error, reconcile } => Verdict::Abort { error: error@, reconcile },
    }
}

fn judge_outcome(step: &Step<String>, outcome: &Outcome<String>) -> (verdict: Verdict<String>)
    ensures
        verdict_view(verdict) == judge(step@, outcome@),
{
    match outcome {
        Outcome::Done => Verdict::Fine,
        Outcome::Failed(error) => match &step.on_failure {
            OnFailure::Abort => Verdict::Abort { error: error.clone(), reconcile: false },
            OnFailure::Ignore => Verdict::Fine,
            OnFailure::Collect(prefix) => Verdict::Issue(
                joined(prefix.as_str(), error.as_str()),
            ),
        },
        Outcome::Issue(issue) => judge_issue_of(step.on_issue, issue),
        Outcome::Noted { note: _, warning } => match warning {
            None => Verdict::Fine,
            Some(issue) => judge_issue_of(step.on_issue, issue),
        },
        Outcome::State { running, last_error } => match &step.on_state {
            OnState::Any => Verdict::Fine,
            OnState::MustRun(text) => if *running {
                Verdict::Fine
            } else {
                let error = match last_error {
                    Some(error) => error.clone(),
                    None => text.clone(),
                };
                Verdict::Abort { error, reconcile: false }
            },
            OnState::MustBeStopped(text) => if *running {
                Verdict::Abort { error: text.clone(), reconcile: false }
            } else {
                Verdict::Fine
            },
        },
    }
}

/// How far a plan has come.
pub struct Progress {
    /// Where it ended, with what error, and whether it is still to be found out
    /// whether the service runs.
    pub ended: Option<(usize, String, bool)>,
    pub issues: Vec<String>,
    pub note: String,
    pub running: bool,
}

/// Says how far a plan has come.
pub fn progress(steps: &Vec<Step<String>>, outcomes: &Vec<Outcome<String>>) -> (p: Progress)
    ensures
        ({
            let s = step_views(steps@);
            let o = outcome_views(outcomes@);
            let n = steps_done(s, o);
            &&& match p.ended {
                Some((k, error, reconcile)) => ended_at(s, o, n) == Some(k as int) && k < n
                    && judge(s[k as int], o[k as int]) == (Verdict::Abort {
                    error: error@,
                    reconcile,
                }),
                None => {
                    &&& ended_at(s, o, n) is None
                    &&& texts(p.issues@) == issues(s, o, n)
                    &&& p.note@ == note(o, n)
                    &&& p.running == was_running(o, n)
                },
            }
        }),
{
    let ghost s = step_views(steps@);
    let ghost o = outcome_views(outcomes@);
    let ghost n = steps_done(s, o);
    let mut issues_found: Vec<String> = Vec::new();
    let mut noted = String::new();
    let mut running = false;
    let mut i: usize = 0;
    assert(texts(issues_found@) =~= issues(s, o, 0));
    assert(noted@ =~= note(o, 0));
    while i < steps.len() && i < outcomes.len()
        invariant
            s == step_views(steps@),
            o == outcome_views(outcomes@),
            n == steps_done(s, o),
            i <= n,
            ended_at(s, o, i as nat) is None,
            texts(issues_found@) == issues(s, o, i as nat),
            noted@ == note(o, i as nat),
            running == was_running(o, i as nat),
        decreases steps@.len() - i,
    {
        let ghost before = issues_found@;
        assert(s[i as int] == steps@[i as int]@);
        assert(o[i as int] == outcomes@[i as int]@);
        match &outcomes[i] {
            Outcome::Noted { note, warning: _ } => {
                noted = note.clone();
            },
            Outcome::State { running: now, last_error: _ } => {
                running = *now;
            },
            _ => {},
        }
        match judge_outcome(&steps[i], &outcomes[i]) {
            Verdict::Fine => {},
            Verdict::Issue(issue) => {
                issues_found.push(issue);
                assert(texts(issues_found@) =~= texts(before).push(issue@));
            },
            Verdict::Abort { error, reconcile } => {
                proof {
                    assert(ended_at(s, o, (i + 1) as nat) == Some(i as int));
                    ended_stays(s, o, (i + 1) as nat, n);
                }
                return Progress {
                    ended: Some((i, error, reconcile)),
                    issues: issues_found,
                    note: noted,
                    running,
                };
            },
        }
        i = i + 1;
    }
    Progress { ended: None, issues: issues_found, note: noted, running }
}

/// Once a command has ended, it stays so.
pub proof fn ended_stays(
    steps: Seq<Step<Seq<char>>>,
    outcomes: Seq<Outcome<Seq<char>>>,
    m: nat,
    n: nat,
)
    requires
        m <= n,
        ended_at(steps, outcomes, m) is Some,
    ensures
        ended_at(steps, outcomes, n) == ended_at(steps, outcomes, m),
    decreases n - m,
{
    if m < n {
        ended_stays(steps, outcomes, m, (n - 1) as nat);
    }
}

fn make_task(job: &Job<String>, found: &Vec<String>, note: &str, running: bool) -> (
    task: Task<String>)
    ensures
        task@ == task_of(job_view(*job), texts(found@), note@, running),
{
    match job {
        Job::Do(task) => task.duplicate(),
        Job::ReportByIssues { clean, troubled } => if found.len() == 0 {
            Task::MarkStopped(joined(clean.as_str(), note))
        } else {
            Task::MarkStopped(joined(troubled.as_str(), note))
        },
        Job::ReportByRunning { running: text, stopped } => if running {
            Task::MarkStopped(text.clone())
        } else {
            Task::MarkStopped(stopped.clone())
        },
    }
}

/// What a job is.
pub open spec fn job_view(job: Job<String>) -> Job<Seq<char>> {
    match job {
        Job::Do(task) => Job::Do(task@),
        Job::ReportByIssues { clean, troubled } => Job::ReportByIssues {
            clean: clean@,
            troubled: troubled@,
        },
        Job::ReportByRunning { running, stopped } => Job::ReportByRunning {
            running: running@,
            stopped: stopped@,
        },
    }
}

/// What is next in a plan.
pub fn plan_next(steps: &Vec<Step<String>>, outcomes: &Vec<Outcome<String>>) -> (
    next: Next<String>)
    ensures
        next@ == next_in_plan(step_views(steps@), outcome_views(outcomes@)),
{
    let p = progress(steps, outcomes);
    match p.ended {
        Some((k, error, reconcile)) => if reconcile && outcomes.len() == k + 1 {
            Next::Do(Task::ReconcileState)
        } else {
            Next::Failed(error)
        },
        None => {
            let n: usize = outcomes.len();
            if n < steps.len() {
                assert(step_views(steps@)[n as int] == steps@[n as int]@);
                Next::Do(make_task(&steps[n].job, &p.issues, p.note.as_str(), p.running))
            } else if p.issues.len() == 0 {
                Next::Succeeded
            } else {
                Next::Failed(join_texts(&p.issues, "; "))
            }
        },
    }
}

// ---------------------------------------------------------------------------
// Laws
// ---------------------------------------------------------------------------
/// A command has ended if and only if an outcome ended it, and then at the
/// first that did.
pub proof fn ended_at_is_the_first(
    steps: Seq<Step<Seq<char>>>,
    outcomes: Seq<Outcome<Seq<char>>>,
    n: nat,
)
    ensures
        ended_at(steps, outcomes, n) is None <==> going(steps, outcomes, n as int),
        ended_at(steps, outcomes, n) matches Some(k) ==> 0 <= k < n && going(steps, outcomes, k)
            && judge(steps[k], outcomes[k]) is Abort,
    decreases n,
{
    if n > 0 {
        ended_at_is_the_first(steps, outcomes, (n - 1) as nat);
        if going(steps, outcomes, n - 1) && !(judge(steps[n - 1], outcomes[n - 1]) is Abort) {
            assert(going(steps, outcomes, n as int));
        } else if going(steps, outcomes, n as int) {
            assert(!(judge(steps[n - 1], outcomes[n - 1]) is Abort));
        }
    }
}

/// The steps are done in order and none is left out: as long as no outcome
/// ends the command, what is next is the step behind those that were done.
pub proof fn steps_are_done_in_order(
    steps: Seq<Step<Seq<char>>>,
    outcomes: Seq<Outcome<Seq<char>>>,
)
    requires
        outcomes.len() < steps.len(),
        going(steps, outcomes, outcomes.len() as int),
    ensures
        next_in_plan(steps, outcomes) matches Next::Do(task) && (
        steps[outcomes.len() as int].job matches Job::Do(t) ==> task == t),
{
    ended_at_is_the_first(steps, outcomes, outcomes.len());
}

/// After a step that ends the command no other is done, and it fails with the
/// error of that step; at most it is first found out whether the service runs.
pub proof fn nothing_follows_an_abort(
    steps: Seq<Step<Seq<char>>>,
    outcomes: Seq<Outcome<Seq<char>>>,
    k: int,
)
    requires
        0 <= k < steps_done(steps, outcomes),
        going(steps, outcomes, k),
        judge(steps[k], outcomes[k]) is Abort,
    ensures
        next_in_plan(steps, outcomes) == Next::Failed(
            judge(steps[k], outcomes[k])->error,
        ) || (next_in_plan(steps, outcomes) == Next::Do(Task::<Seq<char>>::ReconcileState)
            && outcomes.len() == k + 1),
{
    let n = steps_done(steps, outcomes);
    ended_at_is_the_first(steps, outcomes, (k + 1) as nat);
    assert(ended_at(steps, outcomes, (k + 1) as nat) == Some(k)) by {
        ended_at_is_the_first(steps, outcomes, k as nat);
    }
    ended_stays(steps, outcomes, (k + 1) as nat, n);
}

/// A command succeeds if and only if all of its steps were done, none ended it,
/// and nothing is left undone.
pub proof fn success_means_that_all_is_done(
    steps: Seq<Step<Seq<char>>>,
    outcomes: Seq<Outcome<Seq<char>>>,
)
    ensures
        next_in_plan(steps, outcomes) is Succeeded <==> outcomes.len() >= steps.len() && going(
            steps,
            outcomes,
            steps.len() as int,
        ) && issues(steps, outcomes, steps.len()).len() == 0,
{
    let n = steps_done(steps, outcomes);
    ended_at_is_the_first(steps, outcomes, n);
    if outcomes.len() >= steps.len() {
        assert(n == steps.len());
    }
}

/// Nothing is left undone if and only if no step raised an issue.
pub proof fn every_issue_counts(
    steps: Seq<Step<Seq<char>>>,
    outcomes: Seq<Outcome<Seq<char>>>,
    n: nat,
)
    ensures
        issues(steps, outcomes, n).len() == 0 <==> forall|i: int|
            0 <= i < n ==> !(#[trigger] judge(steps[i], outcomes[i]) is Issue),
    decreases n,
{
    if n > 0 {
        every_issue_counts(steps, outcomes, (n - 1) as nat);
        if issues(steps, outcomes, n).len() > 0 && forall|i: int|
            0 <= i < n ==> !(#[trigger] judge(steps[i], outcomes[i]) is Issue) {
            assert(!(judge(steps[n - 1], outcomes[n - 1]) is Issue));
        }
    }
}

/// A failure that is ignored, or that only counts as an issue, does not keep
/// the later steps from being done.
pub proof fn a_tolerated_failure_stops_nothing(
    steps: Seq<Step<Seq<char>>>,
    outcomes: Seq<Outcome<Seq<char>>>,
    error: Seq<char>,
)
    requires
        outcomes.len() + 1 < steps.len(),
        going(steps, outcomes, outcomes.len() as int),
        !(steps[outcomes.len() as int].on_failure is Abort),
    ensures
        next_in_plan(steps, outcomes.push(Outcome::Failed(error))) is Do,
{
    let more = outcomes.push(Outcome::Failed(error));
    assert forall|i: int| 0 <= i < more.len() implies !(#[trigger] judge(steps[i], more[i])
        is Abort) by {
        if i < outcomes.len() {
            assert(more[i] == outcomes[i]);
            assert(!(judge(steps[i], outcomes[i]) is Abort));
        }
    }
    steps_are_done_in_order(steps, more);
}

} // verus!
