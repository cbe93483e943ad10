use linuxdo_accelerator::hosts::{
    cleanup_hosts_state, restore_hosts_after_stop, Answer, BackupState, HostsAnswers, HostsStep,
    HostsTask,
};
use linuxdo_accelerator::plan::{Next, Outcome, Task};
use linuxdo_accelerator::process::{
    cli_binary_name, cli_sibling, current_cli_binary, daemon_arguments,
    discover_running_daemon_pid, reconcile_running_state, terminate_running_service,
    wait_until_running, wait_until_stopped, Discovery, PidAnswer, Reading, ReconcileAnswers,
    ReconcileStep, TerminateAnswers, TerminateStep, TerminateTask, WaitStep,
};
use linuxdo_accelerator::service::{
    apply_hosts_only, backup_hosts, clean_hosts, cleanup, cleanup_after_ui_disconnect,
    daemon_exit, helper_start, helper_stop, init_config, prepare_certificate, restore_hosts,
    run_foreground, setup, start_failure, status, stop_running_daemon, uninstall_certificate,
    ProxyEnd,
};
use linuxdo_accelerator::state::{ServiceState, UiLease};
use linuxdo_accelerator::watchdog::{
    active_ui_lease_exists, missing_message, start_watching, ui_lease_tick, Guard, LeaseCheck,
    LeaseReading, Watch, STALE_AFTER,
};

type Outcomes = Vec<Outcome<String>>;

fn failed(text: &str) -> Outcome<String> {
    Outcome::Failed(text.to_string())
}

fn state_of(running: bool, last_error: Option<&str>) -> Outcome<String> {
    Outcome::State { running, last_error: last_error.map(str::to_string) }
}

fn noted(note: &str, warning: Option<&str>) -> Outcome<String> {
    Outcome::Noted { note: note.to_string(), warning: warning.map(str::to_string) }
}

/// A short name for each task that the tests look for.
fn name(task: &Task<String>) -> String {
    match task {
        Task::MigrateConfig => "migrate".to_string(),
        Task::LoadConfig => "load".to_string(),
        Task::RequireRights(setup) => format!("rights {setup}"),
        Task::AddLoopbackAlias => "alias".to_string(),
        Task::RemoveLoopbackAlias => "unalias".to_string(),
        Task::EnsureBundle => "bundle".to_string(),
        Task::LoadBundle => "load bundle".to_string(),
        Task::InstallRoot => "trust".to_string(),
        Task::UninstallRoot => "distrust".to_string(),
        Task::ApplyHosts => "hosts".to_string(),
        Task::RemoveHosts => "unhosts".to_string(),
        Task::BackUpHosts => "backup".to_string(),
        Task::RestoreHosts => "restore".to_string(),
        Task::CleanUpHosts => "clean up hosts".to_string(),
        Task::RestoreHostsAfterStop => "restore after stop".to_string(),
        Task::FlushDns => "flush".to_string(),
        Task::RefreshState => "refresh".to_string(),
        Task::ReconcileState => "reconcile".to_string(),
        Task::Terminate => "terminate".to_string(),
        Task::StopDaemon => "stop daemon".to_string(),
        Task::SpawnDaemon => "spawn".to_string(),
        Task::RecordPid => "record pid".to_string(),
        Task::RecordOwnPid => "record own pid".to_string(),
        Task::ClearOwnPid => "clear own pid".to_string(),
        Task::AwaitRunning => "await".to_string(),
        Task::Pause(millis) => format!("pause {millis}"),
        Task::ClearPid => "clear pid".to_string(),
        Task::ClearUiLease => "clear lease".to_string(),
        Task::CleanUpAfterUi => "clean up after ui".to_string(),
        Task::MarkStarting => "starting".to_string(),
        Task::MarkRunning => "running".to_string(),
        Task::MarkStopped(text) => format!("stopped {text}"),
        Task::MarkError(text) => format!("error {text}"),
    }
}

/// Runs a command; what comes of a task is `Done` unless `special` says
/// otherwise. Gives the tasks, and the error if there was one.
fn play(
    command: &dyn Fn(&Outcomes) -> Next<String>,
    special: &dyn Fn(&str) -> Option<Outcome<String>>,
) -> (Vec<String>, Option<String>) {
    let mut outcomes = Vec::new();
    let mut tasks = Vec::new();
    loop {
        match command(&outcomes) {
            Next::Do(task) => {
                let task = name(&task);
                outcomes.push(special(&task).unwrap_or(Outcome::Done));
                tasks.push(task);
                assert!(tasks.len() < 50);
            }
            Next::Succeeded => return (tasks, None),
            Next::Failed(error) => return (tasks, Some(error)),
        }
    }
}

fn nothing_special(_: &str) -> Option<Outcome<String>> {
    None
}

#[test]
fn simple_commands_do_their_steps() {
    let (tasks, error) = play(&init_config, &nothing_special);
    assert_eq!((tasks, error), (vec!["migrate".to_string(), "load".to_string()], None));
    let (tasks, _) = play(&prepare_certificate, &nothing_special);
    assert_eq!(tasks, ["migrate", "load", "bundle", "trust"]);
    let (tasks, _) = play(&apply_hosts_only, &nothing_special);
    assert_eq!(tasks, ["load", "rights true", "alias", "hosts", "flush"]);
    let (tasks, _) = play(&backup_hosts, &nothing_special);
    assert_eq!(tasks, ["backup"]);
    let (tasks, _) = play(&uninstall_certificate, &nothing_special);
    assert_eq!(tasks, ["load", "rights true", "distrust", "stopped 根证书已卸载"]);
    let (tasks, _) = play(&status, &nothing_special);
    assert_eq!(tasks, ["load", "reconcile"]);
    let (tasks, error) = play(&setup, &nothing_special);
    assert_eq!(
        tasks,
        [
            "migrate", "load", "rights true", "alias", "bundle", "trust", "hosts", "flush",
            "stopped 系统加速环境已准备"
        ]
    );
    assert_eq!(error, None);
}

#[test]
fn a_failure_ends_a_command() {
    let (tasks, error) = play(&setup, &|task| match task {
        "flush" => Some(failed("ignored")),
        "bundle" => Some(failed("disk full")),
        _ => None,
    });
    assert_eq!(tasks.last().unwrap(), "bundle");
    assert_eq!(error.as_deref(), Some("disk full"));
    let (tasks, error) = play(&setup, &|task| match task {
        "flush" => Some(failed("ignored")),
        _ => None,
    });
    assert_eq!(tasks.len(), 9);
    assert_eq!(error, None);
}

#[test]
fn the_system_is_not_changed_without_rights() {
    let commands: [&dyn Fn(&Outcomes) -> Next<String>; 8] = [
        &setup, &helper_stop, &cleanup, &clean_hosts, &apply_hosts_only, &restore_hosts,
        &uninstall_certificate, &|outcomes| helper_start(false, outcomes),
    ];
    for command in commands {
        let (tasks, error) = play(command, &|task| match task {
            "rights true" => Some(failed("not root")),
            "reconcile" => Some(state_of(true, None)),
            _ => None,
        });
        assert!(!tasks.iter().any(|task| task == "hosts" || task == "terminate"));
        assert!(error.as_deref() == Some("not root") || tasks.last().unwrap() == "reconcile");
    }
}

#[test]
fn stopping_cleans_up() {
    let (tasks, error) = play(&helper_stop, &|task| match task {
        "restore after stop" => Some(noted("hosts 已恢复为备份", None)),
        _ => None,
    });
    assert_eq!(
        tasks,
        [
            "load", "rights true", "terminate", "restore after stop", "unalias", "clear pid",
            "clear lease", "flush", "stopped 加速已停止，hosts 已恢复为备份"
        ]
    );
    assert_eq!(error, None);
}

#[test]
fn stopping_tells_what_is_left() {
    let (tasks, error) = play(&helper_stop, &|task| match task {
        "restore after stop" => Some(noted("hosts 未恢复", Some("w"))),
        "unalias" => Some(failed("busy")),
        "clear pid" => Some(failed("p")),
        "clear lease" => Some(failed("l")),
        _ => None,
    });
    assert_eq!(
        tasks.last().unwrap(),
        "stopped 已执行停止请求，但存在残留清理问题：hosts 未恢复"
    );
    assert_eq!(
        error.as_deref(),
        Some(
            "w; failed to remove loopback alias: busy; failed to clear pid file: p; failed to clear ui lease: l"
        )
    );
}

#[test]
fn a_service_that_will_not_end_keeps_its_hosts() {
    let (tasks, error) = play(&helper_stop, &|task| match task {
        "terminate" => Some(Outcome::Issue("stuck".to_string())),
        _ => None,
    });
    assert_eq!(tasks, ["load", "rights true", "terminate", "reconcile"]);
    assert_eq!(error.as_deref(), Some("stuck"));
}

#[test]
fn a_cleanup_goes_on_to_the_end() {
    let (tasks, error) = play(&cleanup, &|task| match task {
        "load" | "rights true" => None,
        "terminate" => Some(Outcome::Issue("stuck".to_string())),
        "clean up hosts" => Some(noted("hosts 未清理", Some("w"))),
        "unalias" => Some(failed("a")),
        "distrust" => Some(failed("b")),
        "clear pid" => Some(failed("c")),
        "clear lease" => Some(failed("d")),
        _ => Some(failed("e")),
    });
    assert_eq!(tasks.len(), 9);
    assert_eq!(tasks[8], "stopped 已执行 cleanup，但存在残留问题：hosts 未清理");
    assert_eq!(
        error.as_deref(),
        Some(
            "stuck; w; failed to remove loopback alias: a; failed to uninstall certificate: b; failed to clear pid file: c; failed to clear ui lease: d; failed to update service state: e"
        )
    );
    let (tasks, error) = play(&cleanup, &|task| match task {
        "clean up hosts" => Some(noted("恢复原始 hosts", None)),
        _ => None,
    });
    assert_eq!(tasks[8], "stopped 已卸载证书并恢复原始 hosts");
    assert_eq!(error, None);
}

#[test]
fn hosts_are_not_cleaned_under_a_running_service() {
    let (tasks, error) = play(&clean_hosts, &|task| match task {
        "refresh" => Some(state_of(true, None)),
        _ => None,
    });
    assert_eq!(tasks, ["load", "rights true", "refresh"]);
    assert_eq!(
        error.as_deref(),
        Some("service is still running; stop or cleanup before `clean-hosts`")
    );
    let (tasks, error) = play(&clean_hosts, &|task| match task {
        "refresh" => Some(state_of(false, None)),
        _ => None,
    });
    assert_eq!(tasks[3..], ["unhosts", "unalias", "stopped hosts 已清理"]);
    assert_eq!(error, None);
}

#[test]
fn restoring_tells_whether_the_service_ran() {
    for (running, message) in [
        (true, "stopped 已停止加速并恢复 hosts 备份"),
        (false, "stopped hosts 已恢复为备份"),
    ] {
        let (tasks, error) = play(&restore_hosts, &|task| match task {
            "refresh" => Some(state_of(running, None)),
            "clear pid" => Some(failed("ignored")),
            _ => None,
        });
        assert_eq!(tasks.last().unwrap(), message);
        assert_eq!(error, None);
    }
    let (tasks, error) = play(&restore_hosts, &|task| match task {
        "terminate" => Some(Outcome::Issue("stuck".to_string())),
        _ => None,
    });
    assert!(!tasks.contains(&"restore".to_string()));
    assert_eq!(error.as_deref(), Some("stuck"));
}

#[test]
fn the_ui_is_cleaned_up_after() {
    let (tasks, error) = play(&cleanup_after_ui_disconnect, &|task| match task {
        "restore after stop" => Some(noted("x", None)),
        "stopped 前端已退出，自动停止加速并x" => Some(failed("ignored")),
        _ => None,
    });
    assert_eq!(tasks.len(), 6);
    assert_eq!(error, None);
    let (tasks, error) = play(&cleanup_after_ui_disconnect, &|task| match task {
        "restore after stop" => Some(noted("x", Some("w"))),
        _ => None,
    });
    assert_eq!(
        tasks.last().unwrap(),
        "stopped 前端已退出，已停止监听，但存在残留清理问题：x"
    );
    assert_eq!(error.as_deref(), Some("w"));
    let (tasks, error) = play(&stop_running_daemon, &|task| match task {
        "terminate" => Some(Outcome::Issue("ignored".to_string())),
        _ => None,
    });
    assert_eq!(tasks, ["terminate", "reconcile", "clear pid", "pause 300"]);
    assert_eq!(error, None);
}

#[test]
fn a_service_is_started() {
    let start = |outcomes: &Outcomes| helper_start(false, outcomes);
    let (tasks, error) = play(&start, &|task| match task {
        "reconcile" => Some(state_of(false, None)),
        _ => None,
    });
    // The daemon is not seen running at the end, so that all is undone.
    assert_eq!(
        tasks,
        [
            "migrate", "load", "rights true", "alias", "bundle", "trust", "reconcile", "hosts",
            "flush", "starting", "spawn", "record pid", "await", "pause 800", "reconcile",
            "reconcile", "unhosts", "unalias", "clear pid",
            "error accelerator daemon exited unexpectedly"
        ]
    );
    assert_eq!(error.as_deref(), Some("accelerator daemon exited unexpectedly"));
}

#[test]
fn a_running_service_is_replaced() {
    let start = |outcomes: &Outcomes| helper_start(true, outcomes);
    let (tasks, error) = play(&start, &|task| match task {
        "reconcile" => Some(state_of(true, None)),
        _ => None,
    });
    assert_eq!(
        tasks,
        [
            "migrate", "load", "rights true", "alias", "bundle", "reconcile", "stop daemon",
            "hosts", "flush", "starting", "spawn", "record pid", "await", "pause 800", "reconcile"
        ]
    );
    assert_eq!(error, None);
}

#[test]
fn a_failed_start_is_undone() {
    let start = |outcomes: &Outcomes| helper_start(false, outcomes);
    let (tasks, error) = play(&start, &|task| match task {
        "reconcile" => Some(state_of(false, Some("old"))),
        "spawn" => Some(failed("no such file")),
        _ => None,
    });
    assert_eq!(
        tasks[10..],
        ["spawn", "reconcile", "unhosts", "unalias", "clear pid", "error no such file"]
    );
    assert_eq!(error.as_deref(), Some("no such file"));
    // Without a configuration there is nothing to undo.
    let (tasks, error) = play(&start, &|task| match task {
        "load" => Some(failed("bad toml")),
        _ => None,
    });
    assert_eq!(tasks, ["migrate", "load"]);
    assert_eq!(error.as_deref(), Some("bad toml"));
    // A service that runs all the same is left alone.
    let (tasks, error) = play(&start, &|task| match task {
        "reconcile" => Some(state_of(true, None)),
        "await" => Some(failed("daemon start timed out")),
        _ => None,
    });
    assert_eq!(tasks.last().unwrap(), "reconcile");
    assert_eq!(error, None);
}

#[test]
fn a_start_that_failed_says_why() {
    let mut outcomes: Outcomes = vec![];
    let mut looks = 0;
    loop {
        let Next::Do(task) = helper_start(true, &outcomes) else { break };
        outcomes.push(match name(&task).as_str() {
            // The service is only seen at the last look.
            "reconcile" => {
                looks += 1;
                state_of(looks == 3, None)
            }
            _ => Outcome::Done,
        });
        if looks < 2 {
            assert_eq!(start_failure(true, &outcomes), None);
        }
    }
    assert_eq!(looks, 3);
    assert!(matches!(helper_start(true, &outcomes), Next::Succeeded));
    assert_eq!(
        start_failure(true, &outcomes).as_deref(),
        Some("accelerator daemon exited unexpectedly")
    );
    let outcomes: Outcomes = vec![Outcome::Done, failed("bad toml")];
    assert_eq!(start_failure(false, &outcomes).as_deref(), Some("bad toml"));
}

#[test]
fn the_foreground_is_prepared() {
    let (tasks, _) = play(&|outcomes| run_foreground(true, outcomes), &nothing_special);
    assert_eq!(
        tasks,
        [
            "migrate", "load", "rights true", "alias", "bundle", "trust", "hosts", "flush",
            "record own pid", "running"
        ]
    );
    let (tasks, _) = play(&|outcomes| run_foreground(false, outcomes), &nothing_special);
    assert_eq!(
        tasks,
        ["migrate", "load", "rights false", "alias", "load bundle", "record own pid", "running"]
    );
}

#[test]
fn the_end_of_the_proxy_is_noted() {
    let failed = || ProxyEnd::Failed { brief: "b".to_string(), full: "b: c".to_string() };
    let names = |exit: &[Task<String>]| exit.iter().map(name).collect::<Vec<_>>();
    let exit = daemon_exit(false, ProxyEnd::Stopped);
    assert_eq!(names(&exit.tasks), ["clear own pid", "stopped 加速服务已退出"]);
    assert_eq!(exit.error, None);
    let exit = daemon_exit(false, failed());
    assert_eq!(names(&exit.tasks), ["clear own pid", "error b"]);
    assert_eq!(exit.error.as_deref(), Some("b: c"));
    let exit = daemon_exit(true, failed());
    assert_eq!(names(&exit.tasks), ["clear own pid", "clean up after ui"]);
    assert_eq!(exit.error, None);
}

fn answer(ok: bool, error: &str) -> Answer<String> {
    if ok {
        Answer::Done
    } else {
        Answer::Failed(error.to_string())
    }
}

/// Runs one of the ways of undoing the hosts file. The flags say which tasks
/// work: validating, restoring, removing and clearing.
fn undo(
    step: &dyn Fn(&HostsAnswers<String>) -> HostsStep<String>,
    backup: BackupState,
    works: [bool; 4],
) -> (Vec<HostsTask>, String, Option<String>) {
    let mut answers = HostsAnswers::new();
    let mut tasks = Vec::new();
    loop {
        match step(&answers) {
            HostsStep::Ask(task) => {
                tasks.push(task);
                match task {
                    HostsTask::ReadBackupState => answers.backup = Some(backup),
                    HostsTask::Validate => answers.valid = answer(works[0], "v"),
                    HostsTask::Restore => answers.restored = answer(works[1], "r"),
                    HostsTask::Remove => answers.removed = answer(works[2], "m"),
                    HostsTask::Clear => answers.cleared = answer(works[3], "c"),
                }
            }
            HostsStep::Finished { message, warning } => return (tasks, message, warning),
        }
    }
}

#[test]
fn a_cleanup_prefers_the_backup() {
    let clean = |backup, works| undo(&cleanup_hosts_state, backup, works);
    let (tasks, message, warning) = clean(BackupState::Ready, [true; 4]);
    assert_eq!(tasks, [HostsTask::ReadBackupState, HostsTask::Validate, HostsTask::Restore]);
    assert_eq!((message.as_str(), warning), ("恢复原始 hosts", None));
    let (tasks, message, warning) = clean(BackupState::Ready, [true, false, true, true]);
    assert_eq!(tasks, [HostsTask::ReadBackupState, HostsTask::Validate, HostsTask::Restore, HostsTask::Remove]);
    assert_eq!(message, "清理托管 hosts 规则（完整恢复失败）");
    assert_eq!(
        warning.as_deref(),
        Some(
            "failed to fully restore original hosts backup: r; cleanup fell back to removing the managed hosts block"
        )
    );
    let (tasks, message, warning) = clean(BackupState::Ready, [false, true, true, true]);
    assert_eq!(tasks, [HostsTask::ReadBackupState, HostsTask::Validate, HostsTask::Remove, HostsTask::Clear]);
    assert_eq!(
        (message.as_str(), warning),
        ("清理托管 hosts 规则并重置损坏的备份状态", None)
    );
    let (tasks, message, _) = clean(BackupState::Missing, [true; 4]);
    assert_eq!(tasks, [HostsTask::ReadBackupState, HostsTask::Remove]);
    assert_eq!(message, "清理托管 hosts 规则");
    let (tasks, message, warning) = clean(BackupState::Inconsistent, [true; 4]);
    assert_eq!(tasks, [HostsTask::ReadBackupState, HostsTask::Remove, HostsTask::Clear]);
    assert_eq!(
        (message.as_str(), warning),
        ("清理托管 hosts 规则并重置异常备份状态", None)
    );
}

#[test]
fn a_cleanup_warns_of_what_is_left() {
    let warning = |backup, works| undo(&cleanup_hosts_state, backup, works).2.unwrap();
    assert_eq!(
        warning(BackupState::Ready, [true, false, false, true]),
        "failed to fully restore original hosts backup: r; fallback removal also failed: m"
    );
    assert_eq!(
        warning(BackupState::Ready, [false, true, false, true]),
        "hosts backup is invalid: v; fallback removal failed: m"
    );
    assert_eq!(
        warning(BackupState::Ready, [false, true, true, false]),
        "hosts backup is invalid: v; managed hosts block was removed but clearing stale backup artifacts failed: c"
    );
    assert_eq!(
        warning(BackupState::Missing, [true, true, false, true]),
        "failed to clean managed hosts block: m"
    );
    assert_eq!(
        warning(BackupState::Inconsistent, [true, true, false, true]),
        "hosts backup state is inconsistent; fallback removal failed: m"
    );
    assert_eq!(
        warning(BackupState::Inconsistent, [true, true, true, false]),
        "hosts backup state is inconsistent; managed hosts block was removed but clearing stale backup artifacts failed: c"
    );
}

#[test]
fn stopping_restores_but_clears_nothing() {
    let restore = |backup, works| undo(&restore_hosts_after_stop, backup, works);
    let (tasks, message, warning) = restore(BackupState::Ready, [true; 4]);
    assert_eq!(tasks, [HostsTask::ReadBackupState, HostsTask::Validate, HostsTask::Restore]);
    assert_eq!((message.as_str(), warning), ("hosts 已恢复为备份", None));
    let (tasks, message, warning) = restore(BackupState::Ready, [false, true, true, true]);
    assert_eq!(tasks, [HostsTask::ReadBackupState, HostsTask::Validate, HostsTask::Remove]);
    assert_eq!(message, "hosts 备份异常，已退化为仅清理托管 hosts 规则");
    assert_eq!(
        warning.as_deref(),
        Some("hosts backup is invalid while stopping: v; managed hosts block was removed instead")
    );
    let (_, message, warning) = restore(BackupState::Inconsistent, [true; 4]);
    assert_eq!(message, "hosts 备份状态异常，已退化为仅清理托管 hosts 规则");
    assert_eq!(
        warning.as_deref(),
        Some("hosts backup state is inconsistent while stopping; removed only the managed hosts block")
    );
    let (_, message, warning) = restore(BackupState::Missing, [true; 4]);
    assert_eq!((message.as_str(), warning), ("已清理托管 hosts 规则", None));
    let (_, message, warning) = restore(BackupState::Missing, [true, true, false, true]);
    assert_eq!(message, "hosts 未恢复");
    assert_eq!(
        warning.as_deref(),
        Some("failed to clean managed hosts block while stopping: m")
    );
    let (_, _, warning) = restore(BackupState::Ready, [true, false, true, true]);
    assert_eq!(
        warning.as_deref(),
        Some(
            "failed to restore original hosts backup while stopping: r; fallback removal cleaned the managed hosts block"
        )
    );
}

/// Ends a service; the flags say whether asking, waiting, forcing and waiting
/// again work.
fn end_service(pid: Option<u32>, running: bool, works: [bool; 4]) -> (Vec<TerminateTask>, Outcome<String>) {
    let mut answers = TerminateAnswers::new();
    let mut tasks = Vec::new();
    loop {
        match terminate_running_service(&answers) {
            TerminateStep::Ask(task) => {
                tasks.push(task);
                match task {
                    TerminateTask::ReadPid => {
                        answers.pid = match pid {
                            Some(pid) => PidAnswer::Process(pid),
                            None => PidAnswer::Nobody,
                        }
                    }
                    TerminateTask::CheckRunning(_) => answers.running = Some(running),
                    TerminateTask::Terminate(_) => answers.terminated = answer(works[0], "t"),
                    TerminateTask::AwaitStop { .. } => answers.stopped = answer(works[1], "w"),
                    TerminateTask::Kill(_) => answers.killed = answer(works[2], "k"),
                    TerminateTask::AwaitStopAfterKill { .. } => {
                        answers.stopped_after_kill = answer(works[3], "x")
                    }
                }
            }
            TerminateStep::Finished(outcome) => return (tasks, outcome),
        }
    }
}

#[test]
fn a_service_is_ended() {
    assert!(matches!(end_service(None, true, [true; 4]).1, Outcome::Done));
    assert!(matches!(end_service(Some(7), false, [true; 4]).1, Outcome::Done));
    let (tasks, outcome) = end_service(Some(7), true, [true; 4]);
    assert_eq!(
        tasks,
        [
            TerminateTask::ReadPid,
            TerminateTask::CheckRunning(7),
            TerminateTask::Terminate(7),
            TerminateTask::AwaitStop { pid: 7, seconds: 5 },
        ]
    );
    assert!(matches!(outcome, Outcome::Done));
    let (tasks, outcome) = end_service(Some(7), true, [true, false, true, true]);
    assert_eq!(tasks[4], TerminateTask::Kill(7));
    assert_eq!(tasks[5], TerminateTask::AwaitStopAfterKill { pid: 7, seconds: 3 });
    assert!(matches!(outcome, Outcome::Done));
    let issue = |works| match end_service(Some(7), true, works).1 {
        Outcome::Issue(issue) => issue,
        _ => panic!("expected an issue"),
    };
    assert_eq!(
        issue([false, true, true, true]),
        "failed to terminate running service pid 7: t"
    );
    assert_eq!(
        issue([true, false, false, true]),
        "running service pid 7 did not stop after SIGTERM (w); SIGKILL also failed: k"
    );
    assert_eq!(
        issue([true, false, true, false]),
        "running service pid 7 did not stop cleanly after SIGTERM (w) and SIGKILL (x)"
    );
    let mut answers = TerminateAnswers::new();
    answers.pid = PidAnswer::Failed("unreadable".to_string());
    assert!(matches!(
        terminate_running_service(&answers),
        TerminateStep::Finished(Outcome::Failed(error)) if error == "unreadable"
    ));
}

fn service(running: bool, last_error: Option<&str>) -> ServiceState {
    ServiceState {
        running,
        pid: None,
        status_text: String::new(),
        last_error: last_error.map(str::to_string),
        updated_at: 5,
    }
}

#[test]
fn waiting_ends() {
    assert!(matches!(wait_until_running(Some(&service(true, None))), WaitStep::Ready));
    assert!(matches!(wait_until_running(Some(&service(false, None))), WaitStep::Wait));
    assert!(matches!(
        wait_until_running(Some(&service(false, Some("port in use")))),
        WaitStep::Failed(error) if error == "port in use"
    ));
    assert!(matches!(
        wait_until_running(None),
        WaitStep::Failed(error) if error == "daemon start timed out"
    ));
    assert!(matches!(wait_until_stopped(7, 5, Some(false)), WaitStep::Ready));
    assert!(matches!(wait_until_stopped(7, 5, Some(true)), WaitStep::Wait));
    assert!(matches!(
        wait_until_stopped(7, 5, None),
        WaitStep::Failed(error) if error == "process 7 did not stop within 5s"
    ));
}

#[test]
fn a_service_is_found_running() {
    let mut answers = ReconcileAnswers::new();
    assert!(matches!(reconcile_running_state(&answers, 9), ReconcileStep::Refresh));
    answers.refreshed = Reading::Is(service(true, None));
    assert!(matches!(reconcile_running_state(&answers, 9), ReconcileStep::Finished(s) if s.running));
    answers.refreshed = Reading::Is(service(false, None));
    assert!(matches!(reconcile_running_state(&answers, 9), ReconcileStep::Discover));
    answers.discovered = Discovery::Process(7);
    assert!(matches!(reconcile_running_state(&answers, 9), ReconcileStep::WritePid(7)));
    answers.pid_written = Answer::Done;
    assert!(matches!(reconcile_running_state(&answers, 9), ReconcileStep::MarkRunning(7)));
    answers.marked = Answer::Done;
    assert!(matches!(reconcile_running_state(&answers, 9), ReconcileStep::RefreshAgain));
    answers.refreshed_again = Reading::Failed("gone".to_string());
    assert!(matches!(reconcile_running_state(&answers, 9), ReconcileStep::Failed(e) if e == "gone"));
    answers.discovered = Discovery::Nothing;
    assert!(matches!(reconcile_running_state(&answers, 9), ReconcileStep::CheckPorts));
    answers.ports_ready = Some(false);
    assert!(matches!(reconcile_running_state(&answers, 9), ReconcileStep::Finished(s) if !s.running));
    answers.ports_ready = Some(true);
    match reconcile_running_state(&answers, 9) {
        ReconcileStep::Write(state) => {
            assert!(state.running);
            assert_eq!(state.status_text, "加速中");
            assert_eq!(state.updated_at, 9);
        }
        _ => panic!("expected a repaired state"),
    }
    answers.written = Answer::Done;
    assert!(matches!(reconcile_running_state(&answers, 9), ReconcileStep::Finished(s) if s.running));
}

#[test]
fn processes_are_found_in_a_list() {
    let list = "  12 /usr/bin/linuxdo-accelerator --config /c.toml daemon\r\n\n\
                  13 linuxdo-accelerator --config /other.toml daemon\n\
                  14\tlinuxdo-accelerator daemon --config /c.toml\n\
                  15 linuxdo-accelerator --config /c.toml gui\n";
    assert_eq!(discover_running_daemon_pid(list, "/c.toml", false), [12, 14]);
    assert!(discover_running_daemon_pid(list, "/c.toml", true).is_empty());
    let broken = "1 linuxdo-accelerator --config /c.toml daemon\nx y\n2 linuxdo-accelerator --config /c.toml daemon";
    assert_eq!(discover_running_daemon_pid(broken, "/c.toml", false), [1]);
    assert!(discover_running_daemon_pid("", "/c.toml", false).is_empty());
}

#[test]
fn the_program_is_found() {
    assert_eq!(cli_binary_name(true), "linuxdo-accelerator.exe");
    assert_eq!(cli_sibling("/opt/gui", false), "/opt/linuxdo-accelerator");
    assert_eq!(
        current_cli_binary(Some("/opt/gui"), true, false).as_deref(),
        Ok("/opt/linuxdo-accelerator")
    );
    assert_eq!(
        current_cli_binary(Some("/x/linuxdo-accelerator"), false, false).as_deref(),
        Ok("/x/linuxdo-accelerator")
    );
    for exe in [Some("/opt/gui"), None] {
        assert_eq!(
            current_cli_binary(exe, false, false).unwrap_err(),
            "failed to locate CLI binary"
        );
    }
    assert_eq!(daemon_arguments("/c.toml"), ["--config", "/c.toml", "daemon"]);
}

#[test]
fn a_lease_is_checked_at_the_start() {
    let lease = UiLease { owner_pid: 7, updated_at: 100 };
    let check = |lease: Option<UiLease>, owner_running: bool, now: u64| {
        active_ui_lease_exists(lease, owner_running, STALE_AFTER, now)
    };
    assert_eq!(check(None, true, 100), LeaseCheck::Absent);
    assert_eq!(check(Some(lease), true, 107), LeaseCheck::Active);
    assert_eq!(check(Some(lease), true, 50), LeaseCheck::Active);
    assert_eq!(
        check(Some(lease), true, 108),
        LeaseCheck::Outdated { stale: true, owner_dead: false }
    );
    assert_eq!(
        check(Some(lease), false, 101),
        LeaseCheck::Outdated { stale: false, owner_dead: true }
    );
    // The caller says how old is too old.
    let outdated = LeaseCheck::Outdated { stale: true, owner_dead: false };
    assert_eq!(active_ui_lease_exists(Some(lease), true, 0, 50), outdated);
    assert_eq!(active_ui_lease_exists(Some(lease), true, 3, 103), outdated);
    assert_eq!(active_ui_lease_exists(Some(lease), true, 60, 159), LeaseCheck::Active);
    assert_eq!(active_ui_lease_exists(Some(lease), true, 60, 160), outdated);
}

#[test]
fn a_service_on_its_own_is_left_alone() {
    let lease = UiLease { owner_pid: 7, updated_at: 100 };
    for check in [LeaseCheck::Absent, LeaseCheck::Outdated { stale: true, owner_dead: true }] {
        let mut guard = start_watching(check);
        assert_eq!(guard, Guard::Off);
        for (reading, now) in [
            (LeaseReading::Missing, 100),
            (LeaseReading::Missing, 200),
            (LeaseReading::Present(lease), 300),
            (LeaseReading::Unreadable, 400),
        ] {
            let (next, verdict) = ui_lease_tick(guard, reading, now);
            assert_eq!((next, verdict), (Guard::Off, Watch::GoOn));
            guard = next;
        }
    }
    assert_eq!(start_watching(LeaseCheck::Active), Guard::On { missing_since: None });
}

#[test]
fn an_absent_ui_is_noticed_in_time() {
    let seen = Guard::On { missing_since: None };
    let missed = Guard::On { missing_since: Some(100) };
    let (guard, watch) = ui_lease_tick(seen, LeaseReading::Missing, 100);
    assert_eq!((guard, watch), (missed, Watch::GoOn));
    let (guard, watch) = ui_lease_tick(guard, LeaseReading::Unreadable, 105);
    assert_eq!((guard, watch), (missed, Watch::GoOn));
    let (_, watch) = ui_lease_tick(guard, LeaseReading::Missing, 107);
    assert_eq!(watch, Watch::GoOn);
    let (_, watch) = ui_lease_tick(guard, LeaseReading::Missing, 108);
    assert_eq!(watch, Watch::EndMissing { seconds: 8 });
    let lease = UiLease { owner_pid: 7, updated_at: 106 };
    assert_eq!(ui_lease_tick(guard, LeaseReading::Present(lease), 113), (seen, Watch::GoOn));
    assert_eq!(
        ui_lease_tick(guard, LeaseReading::Present(lease), 114),
        (seen, Watch::EndStale { owner_pid: 7 })
    );
    assert_eq!(
        missing_message(9),
        "ui lease missing for 9s while daemon is ui-managed; requesting shutdown"
    );
}
