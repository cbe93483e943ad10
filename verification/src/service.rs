//! The commands of the accelerator.
use vstd::prelude::*;
use crate::plan::{
    ended_at, judge, next_in_plan, outcome_views, plan_next, progress, step_views, steps_done, Job,
    Next, OnFailure, OnIssue, OnState, Outcome, Step, Task, Verdict,
};
use crate::text::option_text;

verus! {

// ---------------------------------------------------------------------------
// Kinds of steps
// ---------------------------------------------------------------------------
/// A step that has to succeed.
pub open spec fn must(task: Task<Seq<char>>) -> Step<Seq<char>> {
    Step {
        job: Job::Do(task),
        on_failure: OnFailure::Abort,
        on_issue: OnIssue::Collect,
        on_state: OnState::Any,
    }
}

/// A step that may fail.
pub open spec fn attempt(task: Task<Seq<char>>) -> Step<Seq<char>> {
    Step { on_failure: OnFailure::Ignore, ..must(task) }
}

/// A step whose failure counts as an issue, behind the text.
pub open spec fn gather(task: Task<Seq<char>>, prefix: Seq<char>) -> Step<Seq<char>> {
    Step { on_failure: OnFailure::Collect(prefix), ..must(task) }
}

/// The step that ends the process of the service.
pub open spec fn terminating(on_issue: OnIssue) -> Step<Seq<char>> {
    Step { on_issue, ..must(Task::Terminate) }
}

/// The step that makes sure that the service is stopped.
pub open spec fn stopped(text: Seq<char>) -> Step<Seq<char>> {
    Step { on_state: OnState::MustBeStopped(text), ..must(Task::RefreshState) }
}

/// The step that marks the service as stopped, according to the issues.
pub open spec fn report(
    clean: Seq<char>,
    troubled: Seq<char>,
    on_failure: OnFailure<Seq<char>>,
) -> Step<Seq<char>> {
    Step {
        job: Job::ReportByIssues { clean, troubled },
        on_failure,
        on_issue: OnIssue::Collect,
        on_state: OnState::Any,
    }
}

/// The step that marks the service as stopped, according to whether it ran.
pub open spec fn report_running(running: Seq<char>, stopped: Seq<char>) -> Step<Seq<char>> {
    Step {
        job: Job::ReportByRunning { running, stopped },
        on_failure: OnFailure::Abort,
        on_issue: OnIssue::Collect,
        on_state: OnState::Any,
    }
}

fn must_step(task: Task<String>) -> (step: Step<String>)
    ensures
        step@ == must(task@),
{
    Step {
        job: Job::Do(task),
        on_failure: OnFailure::Abort,
        on_issue: OnIssue::Collect,
        on_state: OnState::Any,
    }
}

fn attempt_step(task: Task<String>) -> (step: Step<String>)
    ensures
        step@ == attempt(task@),
{
    Step {
        job: Job::Do(task),
        on_failure: OnFailure::Ignore,
        on_issue: OnIssue::Collect,
        on_state: OnState::Any,
    }
}

fn gather_step(task: Task<String>, prefix: &str) -> (step: Step<String>)
    ensures
        step@ == gather(task@, prefix@),
{
    Step {
        job: Job::Do(task),
        on_failure: OnFailure::Collect(prefix.to_owned()),
        on_issue: OnIssue::Collect,
        on_state: OnState::Any,
    }
}

fn terminating_step(on_issue: OnIssue) -> (step: Step<String>)
    ensures
        step@ == terminating(on_issue),
{
    Step {
        job: Job::Do(Task::Terminate),
        on_failure: OnFailure::Abort,
        on_issue,
        on_state: OnState::Any,
    }
}

fn stopped_step(text: &str) -> (step: Step<String>)
    ensures
        step@ == stopped(text@),
{
    Step {
        job: Job::Do(Task::RefreshState),
        on_failure: OnFailure::Abort,
        on_issue: OnIssue::Collect,
        on_state: OnState::MustBeStopped(text.to_owned()),
    }
}

fn report_step(clean: &str, troubled: &str, on_failure: OnFailure<String>) -> (step: Step<String>)
    ensures
        step@ == report(
            clean@,
            troubled@,
            match on_failure {
                OnFailure::Abort => OnFailure::Abort,
                OnFailure::Ignore => OnFailure::Ignore,
                OnFailure::Collect(prefix) => OnFailure::Collect(prefix@),
            },
        ),
{
    Step {
        job: Job::ReportByIssues { clean: clean.to_owned(), troubled: troubled.to_owned() },
        on_failure,
        on_issue: OnIssue::Collect,
        on_state: OnState::Any,
    }
}

fn report_running_step(running: &str, stopped: &str) -> (step: Step<String>)
    ensures
        step@ == report_running(running@, stopped@),
{
    Step {
        job: Job::ReportByRunning { running: running.to_owned(), stopped: stopped.to_owned() },
        on_failure: OnFailure::Abort,
        on_issue: OnIssue::Collect,
        on_state: OnState::Any,
    }
}

// ---------------------------------------------------------------------------
// Commands
// ---------------------------------------------------------------------------
/// The steps after which the configuration is there and up to date.
pub open spec fn init_config_plan() -> Seq<Step<Seq<char>>> {
    seq![
        must(Task::MigrateConfig),
        must(Task::LoadConfig),
    ]
}

/// Makes sure that the configuration is there and up to date. Says what is next.
pub fn init_config(outcomes: &Vec<Outcome<String>>) -> (next: Next<String>)
    ensures
        next@ == next_in_plan(init_config_plan(), outcome_views(outcomes@)),
{
    let mut steps: Vec<Step<String>> = Vec::new();
    steps.push(must_step(Task::MigrateConfig));
    steps.push(must_step(Task::LoadConfig));
    assert(step_views(steps@) =~= init_config_plan());
    plan_next(&steps, outcomes)
}

/// The steps after which the system is ready for the service.
pub open spec fn setup_plan() -> Seq<Step<Seq<char>>> {
    seq![
        must(Task::MigrateConfig),
        must(Task::LoadConfig),
        must(Task::RequireRights(true)),
        must(Task::AddLoopbackAlias),
        must(Task::EnsureBundle),
        must(Task::InstallRoot),
        must(Task::ApplyHosts),
        attempt(Task::FlushDns),
        must(Task::MarkStopped("系统加速环境已准备"@)),
    ]
}

/// Makes the system ready for the service. Says what is next.
pub fn setup(outcomes: &Vec<Outcome<String>>) -> (next: Next<String>)
    ensures
        next@ == next_in_plan(setup_plan(), outcome_views(outcomes@)),
{
    let mut steps: Vec<Step<String>> = Vec::new();
    steps.push(must_step(Task::MigrateConfig));
    steps.push(must_step(Task::LoadConfig));
    steps.push(must_step(Task::RequireRights(true)));
    steps.push(must_step(Task::AddLoopbackAlias));
    steps.push(must_step(Task::EnsureBundle));
    steps.push(must_step(Task::InstallRoot));
    steps.push(must_step(Task::ApplyHosts));
    steps.push(attempt_step(Task::FlushDns));
    steps.push(must_step(Task::MarkStopped("系统加速环境已准备".to_owned())));
    assert(step_views(steps@) =~= setup_plan());
    plan_next(&steps, outcomes)
}

/// The steps after which the root certificate is trusted.
pub open spec fn prepare_certificate_plan() -> Seq<Step<Seq<char>>> {
    seq![
        must(Task::MigrateConfig),
        must(Task::LoadConfig),
        must(Task::EnsureBundle),
        must(Task::InstallRoot),
    ]
}

/// Makes the certificates, and has the system trust the root. Says what is next.
pub fn prepare_certificate(outcomes: &Vec<Outcome<String>>) -> (next: Next<String>)
    ensures
        next@ == next_in_plan(prepare_certificate_plan(), outcome_views(outcomes@)),
{
    let mut steps: Vec<Step<String>> = Vec::new();
    steps.push(must_step(Task::MigrateConfig));
    steps.push(must_step(Task::LoadConfig));
    steps.push(must_step(Task::EnsureBundle));
    steps.push(must_step(Task::InstallRoot));
    assert(step_views(steps@) =~= prepare_certificate_plan());
    plan_next(&steps, outcomes)
}

/// The steps after which the service is stopped and its traces are gone.
pub open spec fn helper_stop_plan() -> Seq<Step<Seq<char>>> {
    seq![
        must(Task::LoadConfig),
        must(Task::RequireRights(true)),
        terminating(OnIssue::AbortAfterReconcile),
        must(Task::RestoreHostsAfterStop),
        gather(Task::RemoveLoopbackAlias, "failed to remove loopback alias: "@),
        gather(Task::ClearPid, "failed to clear pid file: "@),
        gather(Task::ClearUiLease, "failed to clear ui lease: "@),
        attempt(Task::FlushDns),
        report("加速已停止，"@, "已执行停止请求，但存在残留清理问题："@, OnFailure::Collect("failed to update service state: "@)),
    ]
}

/// Stops the service, and cleans up after it. Says what is next.
pub fn helper_stop(outcomes: &Vec<Outcome<String>>) -> (next: Next<String>)
    ensures
        next@ == next_in_plan(helper_stop_plan(), outcome_views(outcomes@)),
{
    let mut steps: Vec<Step<String>> = Vec::new();
    steps.push(must_step(Task::LoadConfig));
    steps.push(must_step(Task::RequireRights(true)));
    steps.push(terminating_step(OnIssue::AbortAfterReconcile));
    steps.push(must_step(Task::RestoreHostsAfterStop));
    steps.push(gather_step(Task::RemoveLoopbackAlias, "failed to remove loopback alias: "));
    steps.push(gather_step(Task::ClearPid, "failed to clear pid file: "));
    steps.push(gather_step(Task::ClearUiLease, "failed to clear ui lease: "));
    steps.push(attempt_step(Task::FlushDns));
    steps.push(report_step("加速已停止，", "已执行停止请求，但存在残留清理问题：", OnFailure::Collect("failed to update service state: ".to_owned())));
    assert(step_views(steps@) =~= helper_stop_plan());
    plan_next(&steps, outcomes)
}

/// The steps after which the system is as it was before.
pub open spec fn cleanup_plan() -> Seq<Step<Seq<char>>> {
    seq![
        must(Task::LoadConfig),
        must(Task::RequireRights(true)),
        terminating(OnIssue::Collect),
        must(Task::CleanUpHosts),
        gather(Task::RemoveLoopbackAlias, "failed to remove loopback alias: "@),
        gather(Task::UninstallRoot, "failed to uninstall certificate: "@),
        gather(Task::ClearPid, "failed to clear pid file: "@),
        gather(Task::ClearUiLease, "failed to clear ui lease: "@),
        report("已卸载证书并"@, "已执行 cleanup，但存在残留问题："@, OnFailure::Collect("failed to update service state: "@)),
    ]
}

/// Undoes everything that was done to the system. Says what is next.
pub fn cleanup(outcomes: &Vec<Outcome<String>>) -> (next: Next<String>)
    ensures
        next@ == next_in_plan(cleanup_plan(), outcome_views(outcomes@)),
{
    let mut steps: Vec<Step<String>> = Vec::new();
    steps.push(must_step(Task::LoadConfig));
    steps.push(must_step(Task::RequireRights(true)));
    steps.push(terminating_step(OnIssue::Collect));
    steps.push(must_step(Task::CleanUpHosts));
    steps.push(gather_step(Task::RemoveLoopbackAlias, "failed to remove loopback alias: "));
    steps.push(gather_step(Task::UninstallRoot, "failed to uninstall certificate: "));
    steps.push(gather_step(Task::ClearPid, "failed to clear pid file: "));
    steps.push(gather_step(Task::ClearUiLease, "failed to clear ui lease: "));
    steps.push(report_step("已卸载证书并", "已执行 cleanup，但存在残留问题：", OnFailure::Collect("failed to update service state: ".to_owned())));
    assert(step_views(steps@) =~= cleanup_plan());
    plan_next(&steps, outcomes)
}

/// The steps after which the managed lines are gone from the hosts file.
pub open spec fn clean_hosts_plan() -> Seq<Step<Seq<char>>> {
    seq![
        must(Task::LoadConfig),
        must(Task::RequireRights(true)),
        stopped("service is still running; stop or cleanup before `clean-hosts`"@),
        must(Task::RemoveHosts),
        must(Task::RemoveLoopbackAlias),
        must(Task::MarkStopped("hosts 已清理"@)),
    ]
}

/// Removes the managed lines from the hosts file, if the service is stopped. Says what is next.
pub fn clean_hosts(outcomes: &Vec<Outcome<String>>) -> (next: Next<String>)
    ensures
        next@ == next_in_plan(clean_hosts_plan(), outcome_views(outcomes@)),
{
    let mut steps: Vec<Step<String>> = Vec::new();
    steps.push(must_step(Task::LoadConfig));
    steps.push(must_step(Task::RequireRights(true)));
    steps.push(stopped_step("service is still running; stop or cleanup before `clean-hosts`"));
    steps.push(must_step(Task::RemoveHosts));
    steps.push(must_step(Task::RemoveLoopbackAlias));
    steps.push(must_step(Task::MarkStopped("hosts 已清理".to_owned())));
    assert(step_views(steps@) =~= clean_hosts_plan());
    plan_next(&steps, outcomes)
}

/// The steps after which the managed lines are in the hosts file.
pub open spec fn apply_hosts_only_plan() -> Seq<Step<Seq<char>>> {
    seq![
        must(Task::LoadConfig),
        must(Task::RequireRights(true)),
        must(Task::AddLoopbackAlias),
        must(Task::ApplyHosts),
        attempt(Task::FlushDns),
    ]
}

/// Puts the managed lines into the hosts file. Says what is next.
pub fn apply_hosts_only(outcomes: &Vec<Outcome<String>>) -> (next: Next<String>)
    ensures
        next@ == next_in_plan(apply_hosts_only_plan(), outcome_views(outcomes@)),
{
    let mut steps: Vec<Step<String>> = Vec::new();
    steps.push(must_step(Task::LoadConfig));
    steps.push(must_step(Task::RequireRights(true)));
    steps.push(must_step(Task::AddLoopbackAlias));
    steps.push(must_step(Task::ApplyHosts));
    steps.push(attempt_step(Task::FlushDns));
    assert(step_views(steps@) =~= apply_hosts_only_plan());
    plan_next(&steps, outcomes)
}

/// The steps after which there is a backup of the hosts file.
pub open spec fn backup_hosts_plan() -> Seq<Step<Seq<char>>> {
    seq![
        must(Task::BackUpHosts),
    ]
}

/// Makes sure that there is a backup of the hosts file. Says what is next.
pub fn backup_hosts(outcomes: &Vec<Outcome<String>>) -> (next: Next<String>)
    ensures
        next@ == next_in_plan(backup_hosts_plan(), outcome_views(outcomes@)),
{
    let mut steps: Vec<Step<String>> = Vec::new();
    steps.push(must_step(Task::BackUpHosts));
    assert(step_views(steps@) =~= backup_hosts_plan());
    plan_next(&steps, outcomes)
}

/// The steps after which the hosts file is that of the backup.
pub open spec fn restore_hosts_plan() -> Seq<Step<Seq<char>>> {
    seq![
        must(Task::LoadConfig),
        must(Task::RequireRights(true)),
        must(Task::RefreshState),
        terminating(OnIssue::Abort),
        must(Task::RestoreHosts),
        attempt(Task::FlushDns),
        must(Task::RemoveLoopbackAlias),
        attempt(Task::ClearPid),
        report_running("已停止加速并恢复 hosts 备份"@, "hosts 已恢复为备份"@),
    ]
}

/// Stops the service, and puts the backup in the place of the hosts file. Says what is next.
pub fn restore_hosts(outcomes: &Vec<Outcome<String>>) -> (next: Next<String>)
    ensures
        next@ == next_in_plan(restore_hosts_plan(), outcome_views(outcomes@)),
{
    let mut steps: Vec<Step<String>> = Vec::new();
    steps.push(must_step(Task::LoadConfig));
    steps.push(must_step(Task::RequireRights(true)));
    steps.push(must_step(Task::RefreshState));
    steps.push(terminating_step(OnIssue::Abort));
    steps.push(must_step(Task::RestoreHosts));
    steps.push(attempt_step(Task::FlushDns));
    steps.push(must_step(Task::RemoveLoopbackAlias));
    steps.push(attempt_step(Task::ClearPid));
    steps.push(report_running_step("已停止加速并恢复 hosts 备份", "hosts 已恢复为备份"));
    assert(step_views(steps@) =~= restore_hosts_plan());
    plan_next(&steps, outcomes)
}

/// The steps after which the root certificate is not trusted.
pub open spec fn uninstall_certificate_plan() -> Seq<Step<Seq<char>>> {
    seq![
        must(Task::LoadConfig),
        must(Task::RequireRights(true)),
        must(Task::UninstallRoot),
        must(Task::MarkStopped("根证书已卸载"@)),
    ]
}

/// Takes back the trust in the root certificate. Says what is next.
pub fn uninstall_certificate(outcomes: &Vec<Outcome<String>>) -> (next: Next<String>)
    ensures
        next@ == next_in_plan(uninstall_certificate_plan(), outcome_views(outcomes@)),
{
    let mut steps: Vec<Step<String>> = Vec::new();
    steps.push(must_step(Task::LoadConfig));
    steps.push(must_step(Task::RequireRights(true)));
    steps.push(must_step(Task::UninstallRoot));
    steps.push(must_step(Task::MarkStopped("根证书已卸载".to_owned())));
    assert(step_views(steps@) =~= uninstall_certificate_plan());
    plan_next(&steps, outcomes)
}

/// The steps after which it is known whether the service runs.
pub open spec fn status_plan() -> Seq<Step<Seq<char>>> {
    seq![
        must(Task::LoadConfig),
        must(Task::ReconcileState),
    ]
}

/// Finds out whether the service runs. Says what is next.
pub fn status(outcomes: &Vec<Outcome<String>>) -> (next: Next<String>)
    ensures
        next@ == next_in_plan(status_plan(), outcome_views(outcomes@)),
{
    let mut steps: Vec<Step<String>> = Vec::new();
    steps.push(must_step(Task::LoadConfig));
    steps.push(must_step(Task::ReconcileState));
    assert(step_views(steps@) =~= status_plan());
    plan_next(&steps, outcomes)
}

/// The steps after which the traces of the service are gone.
pub open spec fn cleanup_after_ui_disconnect_plan() -> Seq<Step<Seq<char>>> {
    seq![
        must(Task::RestoreHostsAfterStop),
        gather(Task::RemoveLoopbackAlias, "failed to remove loopback alias: "@),
        gather(Task::ClearPid, "failed to clear pid file: "@),
        gather(Task::ClearUiLease, "failed to clear ui lease: "@),
        attempt(Task::FlushDns),
        report("前端已退出，自动停止加速并"@, "前端已退出，已停止监听，但存在残留清理问题："@, OnFailure::Ignore),
    ]
}

/// Cleans up after the service that the user interface left behind. Says what is next.
pub fn cleanup_after_ui_disconnect(outcomes: &Vec<Outcome<String>>) -> (next: Next<String>)
    ensures
        next@ == next_in_plan(cleanup_after_ui_disconnect_plan(), outcome_views(outcomes@)),
{
    let mut steps: Vec<Step<String>> = Vec::new();
    steps.push(must_step(Task::RestoreHostsAfterStop));
    steps.push(gather_step(Task::RemoveLoopbackAlias, "failed to remove loopback alias: "));
    steps.push(gather_step(Task::ClearPid, "failed to clear pid file: "));
    steps.push(gather_step(Task::ClearUiLease, "failed to clear ui lease: "));
    steps.push(attempt_step(Task::FlushDns));
    steps.push(report_step("前端已退出，自动停止加速并", "前端已退出，已停止监听，但存在残留清理问题：", OnFailure::Ignore));
    assert(step_views(steps@) =~= cleanup_after_ui_disconnect_plan());
    plan_next(&steps, outcomes)
}

/// The steps after which the old service is gone.
pub open spec fn stop_running_daemon_plan() -> Seq<Step<Seq<char>>> {
    seq![
        terminating(OnIssue::Ignore),
        attempt(Task::ReconcileState),
        attempt(Task::ClearPid),
        must(Task::Pause(300)),
    ]
}

/// Ends the service so that another can take its place. Says what is next.
pub fn stop_running_daemon(outcomes: &Vec<Outcome<String>>) -> (next: Next<String>)
    ensures
        next@ == next_in_plan(stop_running_daemon_plan(), outcome_views(outcomes@)),
{
    let mut steps: Vec<Step<String>> = Vec::new();
    steps.push(terminating_step(OnIssue::Ignore));
    steps.push(attempt_step(Task::ReconcileState));
    steps.push(attempt_step(Task::ClearPid));
    steps.push(must_step(Task::Pause(300)));
    assert(step_views(steps@) =~= stop_running_daemon_plan());
    plan_next(&steps, outcomes)
}

/// The steps after which the proxy may run in this process.
pub open spec fn run_foreground_plan(with_setup: bool) -> Seq<Step<Seq<char>>> {
    seq![
        must(Task::MigrateConfig),
        must(Task::LoadConfig),
        must(Task::RequireRights(with_setup)),
        must(Task::AddLoopbackAlias),
    ] + (if with_setup {
        seq![
            must(Task::EnsureBundle),
            must(Task::InstallRoot),
            must(Task::ApplyHosts),
            attempt(Task::FlushDns),
        ]
    } else {
        seq![must(Task::LoadBundle)]
    }) + seq![must(Task::RecordOwnPid), must(Task::MarkRunning)]
}

/// Prepares this process for running the proxy, and the system as well if that
/// is wanted. Says what is next.
pub fn run_foreground(with_setup: bool, outcomes: &Vec<Outcome<String>>) -> (next: Next<String>)
    ensures
        next@ == next_in_plan(run_foreground_plan(with_setup), outcome_views(outcomes@)),
{
    let mut steps: Vec<Step<String>> = Vec::new();
    steps.push(must_step(Task::MigrateConfig));
    steps.push(must_step(Task::LoadConfig));
    steps.push(must_step(Task::RequireRights(with_setup)));
    steps.push(must_step(Task::AddLoopbackAlias));
    if with_setup {
        steps.push(must_step(Task::EnsureBundle));
        steps.push(must_step(Task::InstallRoot));
        steps.push(must_step(Task::ApplyHosts));
        steps.push(attempt_step(Task::FlushDns));
    } else {
        steps.push(must_step(Task::LoadBundle));
    }
    steps.push(must_step(Task::RecordOwnPid));
    steps.push(must_step(Task::MarkRunning));
    assert(step_views(steps@) =~= run_foreground_plan(with_setup));
    plan_next(&steps, outcomes)
}

/// How the proxy of this process ended.
pub enum ProxyEnd<S> {
    /// It was asked to.
    Stopped,
    /// It failed: the error in brief, and with its causes.
    Failed { brief: S, full: S },
}

/// What is done once the proxy of this process has ended. The tasks may fail.
pub struct DaemonExit<S> {
    pub tasks: Vec<Task<S>>,
    pub error: Option<S>,
}

/// What some tasks are.
pub open spec fn task_views(tasks: Seq<Task<String>>) -> Seq<Task<Seq<char>>> {
    tasks.map_values(|t: Task<String>| t@)
}

/// Says what is done once the proxy of this process has ended: if the user
/// interface is gone everything is cleaned up, and that is no error; else the
/// end is noted.
pub fn daemon_exit(ui_managed_shutdown: bool, end: ProxyEnd<String>) -> (exit: DaemonExit<String>)
    ensures
        task_views(exit.tasks@) == seq![
            Task::<Seq<char>>::ClearOwnPid,
            if ui_managed_shutdown {
                Task::CleanUpAfterUi
            } else {
                match end {
                    ProxyEnd::Stopped => Task::MarkStopped("加速服务已退出"@),
                    ProxyEnd::Failed { brief, full: _ } => Task::MarkError(brief@),
                }
            },
        ],
        option_text(exit.error) == match end {
            ProxyEnd::Failed { brief: _, full } => if ui_managed_shutdown {
                None
            } else {
                Some(full@)
            },
            ProxyEnd::Stopped => None,
        },
{
    let mut tasks: Vec<Task<String>> = Vec::new();
    tasks.push(Task::ClearOwnPid);
    let mut error: Option<String> = None;
    if ui_managed_shutdown {
        tasks.push(Task::CleanUpAfterUi);
    } else {
        match &end {
            ProxyEnd::Stopped => {
                tasks.push(Task::MarkStopped("加速服务已退出".to_owned()));
            },
            ProxyEnd::Failed { brief, full } => {
                tasks.push(Task::MarkError(brief.clone()));
                error = Some(full.clone());
            },
        }
    }
    assert(task_views(tasks@) =~= seq![tasks@[0]@, tasks@[1]@]);
    DaemonExit { tasks, error }
}

// ---------------------------------------------------------------------------
// Starting the service
// ---------------------------------------------------------------------------
/// The step that makes sure that the service runs.
pub open spec fn running(text: Seq<char>) -> Step<Seq<char>> {
    Step { on_state: OnState::MustRun(text), ..must(Task::ReconcileState) }
}

fn running_step(text: &str) -> (step: Step<String>)
    ensures
        step@ == running(text@),
{
    Step {
        job: Job::Do(Task::ReconcileState),
        on_failure: OnFailure::Abort,
        on_issue: OnIssue::Collect,
        on_state: OnState::MustRun(text.to_owned()),
    }
}

/// The steps that start the service. On macOS somebody else has the system
/// trust the root certificate; a service that runs already is ended first.
pub open spec fn start_plan(macos: bool, was_running: bool) -> Seq<Step<Seq<char>>> {
    seq![
        must(Task::MigrateConfig),
        must(Task::LoadConfig),
        must(Task::RequireRights(true)),
        must(Task::AddLoopbackAlias),
        must(Task::EnsureBundle),
    ] + (if macos {
        Seq::empty()
    } else {
        seq![must(Task::InstallRoot)]
    }) + seq![must(Task::ReconcileState)] + (if was_running {
        seq![must(Task::StopDaemon)]
    } else {
        Seq::empty()
    }) + seq![
        must(Task::ApplyHosts),
        attempt(Task::FlushDns),
        must(Task::MarkStarting),
        must(Task::SpawnDaemon),
        must(Task::RecordPid),
        must(Task::AwaitRunning),
        must(Task::Pause(800)),
        running("accelerator daemon exited unexpectedly"@),
    ]
}

/// The place of the step that finds out whether the service runs already.
pub open spec fn reconcile_place(macos: bool) -> int {
    if macos {
        5
    } else {
        6
    }
}

/// That step found the service running.
pub open spec fn runs_already(macos: bool, outcomes: Seq<Outcome<Seq<char>>>) -> bool {
    let r = reconcile_place(macos);
    outcomes.len() > r && (outcomes[r] matches Outcome::State { running, last_error: _ }
        && running)
}

/// What is undone if the service could not be started. None of it has to
/// succeed.
pub open spec fn rollback(error: Seq<char>) -> Seq<Task<Seq<char>>> {
    seq![
        Task::RemoveHosts,
        Task::RemoveLoopbackAlias,
        Task::ClearPid,
        Task::MarkError(error),
    ]
}

/// What is next when the service is started. If that fails once the
/// configuration is there, it is found out whether the service runs all the
/// same: then nothing is wrong, and else what was done is undone.
pub open spec fn next_start(macos: bool, outcomes: Seq<Outcome<Seq<char>>>) -> Next<Seq<char>> {
    let steps = start_plan(macos, runs_already(macos, outcomes));
    match ended_at(steps, outcomes, steps_done(steps, outcomes)) {
        None => next_in_plan(steps, outcomes),
        Some(k) => match judge(steps[k], outcomes[k]) {
            Verdict::Abort { error, reconcile: _ } => {
                let after = outcomes.len() - (k + 1);
                if k < 2 {
                    Next::Failed(error)
                } else if after == 0 {
                    Next::Do(Task::ReconcileState)
                } else if outcomes[k + 1] matches Outcome::State { running: true, last_error: _ } {
                    Next::Succeeded
                } else if after <= 4 {
                    Next::Do(rollback(error)[after - 1])
                } else {
                    Next::Failed(error)
                }
            },
            _ => Next::Succeeded,
        },
    }
}

/// The error at which starting the service came to an end, if it did.
pub open spec fn start_error(macos: bool, outcomes: Seq<Outcome<Seq<char>>>) -> Option<Seq<char>> {
    let steps = start_plan(macos, runs_already(macos, outcomes));
    match ended_at(steps, outcomes, steps_done(steps, outcomes)) {
        Some(k) => match judge(steps[k], outcomes[k]) {
            Verdict::Abort { error, reconcile: _ } => Some(error),
            _ => None,
        },
        None => None,
    }
}

fn start_steps(macos: bool, outcomes: &Vec<Outcome<String>>) -> (steps: Vec<Step<String>>)
    ensures
        step_views(steps@) == start_plan(macos, runs_already(macos, outcome_views(outcomes@))),
{
    let ghost o = outcome_views(outcomes@);
    let place: usize = if macos {
        5
    } else {
        6
    };
    let mut was_running = false;
    if outcomes.len() > place {
        assert(o[place as int] == outcomes@[place as int]@);
        if let Outcome::State { running, last_error: _ } = &outcomes[place] {
            was_running = *running;
        }
    }
    let mut steps: Vec<Step<String>> = Vec::new();
    steps.push(must_step(Task::MigrateConfig));
    steps.push(must_step(Task::LoadConfig));
    steps.push(must_step(Task::RequireRights(true)));
    steps.push(must_step(Task::AddLoopbackAlias));
    steps.push(must_step(Task::EnsureBundle));
    if !macos {
        steps.push(must_step(Task::InstallRoot));
    }
    steps.push(must_step(Task::ReconcileState));
    if was_running {
        steps.push(must_step(Task::StopDaemon));
    }
    steps.push(must_step(Task::ApplyHosts));
    steps.push(attempt_step(Task::FlushDns));
    steps.push(must_step(Task::MarkStarting));
    steps.push(must_step(Task::SpawnDaemon));
    steps.push(must_step(Task::RecordPid));
    steps.push(must_step(Task::AwaitRunning));
    steps.push(must_step(Task::Pause(800)));
    steps.push(running_step("accelerator daemon exited unexpectedly"));
    assert(step_views(steps@) =~= start_plan(macos, was_running));
    steps
}

/// Starts the service. Says what is next.
pub fn helper_start(macos: bool, outcomes: &Vec<Outcome<String>>) -> (next: Next<String>)
    ensures
        next@ == next_start(macos, outcome_views(outcomes@)),
{
    let ghost o = outcome_views(outcomes@);
    let steps = start_steps(macos, outcomes);
    let p = progress(&steps, outcomes);
    match p.ended {
        None => plan_next(&steps, outcomes),
        Some((k, error, _)) => {
            let after: usize = outcomes.len() - (k + 1);
            if k < 2 {
                return Next::Failed(error);
            }
            if after == 0 {
                return Next::Do(Task::ReconcileState);
            }
            assert(o[k + 1] == outcomes@[k + 1]@);
            if let Outcome::State { running, last_error: _ } = &outcomes[k + 1] {
                if *running {
                    return Next::Succeeded;
                }
            }
            if after == 1 {
                Next::Do(Task::RemoveHosts)
            } else if after == 2 {
                Next::Do(Task::RemoveLoopbackAlias)
            } else if after == 3 {
                Next::Do(Task::ClearPid)
            } else if after == 4 {
                Next::Do(Task::MarkError(error))
            } else {
                Next::Failed(error)
            }
        },
    }
}

/// The error at which starting the service came to an end, if it did: also
/// where the service is then found running, so that the start counts as a
/// success.
pub fn start_failure(macos: bool, outcomes: &Vec<Outcome<String>>) -> (error: Option<String>)
    ensures
        option_text(error) == start_error(macos, outcome_views(outcomes@)),
{
    let steps = start_steps(macos, outcomes);
    match progress(&steps, outcomes).ended {
        None => None,
        Some((_, error, _)) => Some(error),
    }
}

} // verus!
