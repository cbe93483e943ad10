use linuxdo_accelerator::helper_ipc::{
    frame_message, invalid_request, message_of_line, real_user_uid, refuse_peer,
    requested_command, run_privileged_helper, socket_path, HelperAnswers, HelperCommand,
    HelperRequest, HelperResponse, HelperStep,
};
use linuxdo_accelerator::hosts::Answer;
use linuxdo_accelerator::paths::{
    default_app_dirs, effective_linux_home_dir, effective_linux_uid, layout_error, parse_uid,
    resolve_paths, AppPaths, DirSources, LayoutStep, PathError, Platform,
};
use linuxdo_accelerator::process::Reading;
use linuxdo_accelerator::state::ServiceState;

fn text(value: &str) -> Option<String> {
    Some(value.to_string())
}

fn sources() -> DirSources {
    DirSources {
        ios_home: text("/container"),
        linux_home: text("/home/me"),
        project_dirs: Some(("/pc".to_string(), "/pd".to_string())),
    }
}

fn dirs(platform: Platform, sources: DirSources) -> (String, String) {
    default_app_dirs(platform, sources).unwrap()
}

fn pair(a: &str, b: &str) -> (String, String) {
    (a.to_string(), b.to_string())
}

#[test]
fn each_system_has_its_directories() {
    assert_eq!(
        dirs(Platform::Linux, sources()),
        pair("/home/me/.config/linuxdo-accelerator", "/home/me/.local/share/linuxdo-accelerator")
    );
    assert_eq!(
        dirs(Platform::Ios, sources()),
        pair("/container/config", "/container/data")
    );
    assert_eq!(
        dirs(Platform::Android, sources()),
        pair(
            "/data/local/tmp/linuxdo-accelerator/config",
            "/data/local/tmp/linuxdo-accelerator/data"
        )
    );
    assert_eq!(dirs(Platform::Other, sources()), pair("/pc", "/pd"));
    let homeless = DirSources { linux_home: None, ..sources() };
    assert_eq!(dirs(Platform::Linux, homeless), pair("/pc", "/pd"));
}

#[test]
fn missing_directories_are_errors() {
    let none = || DirSources { ios_home: None, linux_home: None, project_dirs: None };
    assert_eq!(default_app_dirs(Platform::Ios, none()), Err(PathError::NoIosHome));
    assert_eq!(default_app_dirs(Platform::Linux, none()), Err(PathError::NoProjectDirs));
    assert_eq!(default_app_dirs(Platform::Other, none()), Err(PathError::NoProjectDirs));
    assert_eq!(
        PathError::NoIosHome.message(),
        "LINUXDO_IOS_HOME not set (iOS container dir)"
    );
    assert_eq!(
        PathError::NoProjectDirs.message(),
        "failed to resolve platform application directories"
    );
    assert_eq!(
        PathError::InvalidConfigPath { path: "/".to_string() }.message(),
        "invalid config path /"
    );
}

#[test]
fn the_acting_user_counts() {
    assert_eq!(effective_linux_uid(Some("1000"), Some("7")), Some(1000));
    assert_eq!(effective_linux_uid(None, Some("7")), Some(7));
    assert_eq!(effective_linux_uid(Some("x"), Some("7")), None);
    assert_eq!(effective_linux_uid(None, None), None);
    assert_eq!(parse_uid("4294967295"), Some(u32::MAX));
    assert_eq!(parse_uid("4294967296"), None);
    assert_eq!(parse_uid(""), None);
    assert_eq!(effective_linux_home_dir(text("/u"), text("/e")), text("/u"));
    assert_eq!(effective_linux_home_dir(None, text("/e")), text("/e"));
    assert_eq!(effective_linux_home_dir(None, None), None);
}

#[test]
fn the_default_layout() {
    let (paths, steps) = resolve_paths(None, Platform::Linux, sources()).unwrap();
    assert_eq!(
        paths.config_path,
        "/home/me/.config/linuxdo-accelerator/linuxdo-accelerator.toml"
    );
    assert_eq!(paths.config_dir, "/home/me/.config/linuxdo-accelerator");
    assert_eq!(paths.data_dir, "/home/me/.local/share/linuxdo-accelerator");
    assert_eq!(paths.runtime_dir, "/home/me/.local/share/linuxdo-accelerator/runtime");
    assert_eq!(paths.cert_dir, "/home/me/.local/share/linuxdo-accelerator/certs");
    assert_eq!(steps.len(), 6);
    assert!(matches!(&steps[0], LayoutStep::CreateDir(dir) if *dir == paths.config_dir));
    assert!(matches!(&steps[2], LayoutStep::CreateDir(dir) if *dir == paths.runtime_dir));
    assert!(matches!(&steps[5], LayoutStep::GiveToUser(dir) if *dir == paths.data_dir));
    assert_eq!(layout_error(&steps[3], "no"), format!("failed to create {}: no", paths.cert_dir));
    assert_eq!(layout_error(&steps[4], "no"), "no");
}

#[test]
fn files_follow_an_explicit_configuration() {
    let resolve = |path: &str| AppPaths::resolve(text(path), pair("/pc", "/pd")).unwrap();
    let paths = resolve("/opt/acc/linuxdo-accelerator.toml");
    assert_eq!(paths.data_dir, "/opt/acc");
    assert_eq!(paths.pid_path, "/opt/acc/runtime/linuxdo-accelerator.pid");
    let paths = resolve("/opt/acc/Config/my.toml");
    assert_eq!(paths.config_dir, "/opt/acc/Config");
    assert_eq!(paths.data_dir, "/opt/acc/data");
    assert_eq!(paths.state_path, "/opt/acc/data/runtime/service-state.json");
    assert_eq!(paths.ui_lease_path, "/opt/acc/data/runtime/ui-lease.json");
    assert_eq!(paths.ui_window_path, "/opt/acc/data/runtime/ui-window.json");
    assert_eq!(paths.runtime_log_path, "/opt/acc/data/runtime/operations.log");
    assert_eq!(paths.hosts_backup_path, "/opt/acc/data/runtime/hosts.backup");
    assert_eq!(paths.hosts_backup_meta_path, "/opt/acc/data/runtime/hosts.backup.json");
}

#[test]
fn the_default_configuration_may_be_named() {
    let resolve = |path: &str| AppPaths::resolve(text(path), pair("/pc", "/pd")).unwrap();
    let paths = resolve("/pc//linuxdo-accelerator.toml");
    assert_eq!(paths.data_dir, "/pd");
    assert_eq!(paths.config_path, "/pc//linuxdo-accelerator.toml");
    let named = resolve("/pc/linuxdo-accelerator.toml");
    let unnamed = AppPaths::resolve(None, pair("/pc", "/pd")).unwrap();
    assert_eq!(named.config_path, unnamed.config_path);
    assert_eq!(named.config_dir, unnamed.config_dir);
    assert_eq!(named.data_dir, unnamed.data_dir);
    assert_eq!(named.runtime_dir, unnamed.runtime_dir);
    assert_eq!(named.cert_dir, unnamed.cert_dir);
    assert_eq!(named.state_path, unnamed.state_path);
    let error = AppPaths::resolve(text("/"), pair("/pc", "/pd")).err();
    assert_eq!(error, Some(PathError::InvalidConfigPath { path: "/".to_string() }));
}

#[test]
fn the_helper_has_a_socket() {
    assert_eq!(socket_path(), "/tmp/io.linuxdo.accelerator.helper.sock");
}

#[test]
fn strangers_are_refused() {
    assert_eq!(real_user_uid(Some("1000"), 0), 1000);
    assert_eq!(real_user_uid(Some("x"), 5), 5);
    assert_eq!(real_user_uid(None, 5), 5);
    let response = refuse_peer(Some(1001), 1000).unwrap();
    assert!(!response.success);
    assert_eq!(response.message, "rejected: peer uid 1001 != expected 1000");
    assert!(refuse_peer(Some(1000), 1000).is_none());
    assert!(refuse_peer(Some(1001), 0).is_none());
    assert!(refuse_peer(None, 1000).is_none());
}

fn requests() -> [(HelperRequest, HelperCommand); 3] {
    let config_path = "/c.toml".to_string();
    [
        (HelperRequest::Start { config_path: config_path.clone() }, HelperCommand::Start),
        (HelperRequest::Stop { config_path: config_path.clone() }, HelperCommand::Stop),
        (HelperRequest::Status { config_path }, HelperCommand::Status),
    ]
}

fn state() -> ServiceState {
    ServiceState {
        running: true,
        pid: Some(7),
        status_text: "加速中".to_string(),
        last_error: None,
        updated_at: 1,
    }
}

fn response(request: &HelperRequest, answers: HelperAnswers<String>) -> Option<HelperResponse> {
    match run_privileged_helper(request, answers) {
        HelperStep::Run { .. } => None,
        HelperStep::Respond(response) => Some(response),
    }
}

#[test]
fn a_request_runs_its_own_command() {
    for (request, wanted) in requests() {
        assert_eq!(requested_command(&request), (wanted, "/c.toml".to_string()));
        assert!(matches!(
            run_privileged_helper(&request, HelperAnswers::new()),
            HelperStep::Run { command, config_path } if command == wanted && config_path == "/c.toml"
        ));
    }
    // What came of another command is no answer.
    let [(start, _), (stop, _), (status, _)] = requests();
    let started = || HelperAnswers { started: Answer::Done, ..HelperAnswers::new() };
    assert!(response(&start, started()).is_some());
    assert!(response(&stop, started()).is_none());
    assert!(response(&status, started()).is_none());
    let stopped = HelperAnswers { stopped: Answer::Done, ..HelperAnswers::new() };
    assert!(response(&start, stopped).is_none());
    let known = HelperAnswers { state: Reading::Is(state()), ..HelperAnswers::new() };
    assert!(response(&start, known).is_none());
}

#[test]
fn requests_are_answered() {
    let [(start, _), (stop, _), (status, _)] = requests();
    let no = || "no".to_string();
    let answers = HelperAnswers { started: Answer::Done, ..HelperAnswers::new() };
    let told = response(&start, answers).unwrap();
    assert_eq!((told.success, told.message.as_str()), (true, "加速服务已启动"));
    assert!(told.status.is_none());
    let answers = HelperAnswers { stopped: Answer::Done, ..HelperAnswers::new() };
    let told = response(&stop, answers).unwrap();
    assert_eq!((told.success, told.message.as_str()), (true, "加速服务已停止"));
    assert!(told.status.is_none());
    let answers = HelperAnswers { state: Reading::Is(state()), ..HelperAnswers::new() };
    let told = response(&status, answers).unwrap();
    assert_eq!((told.success, told.message.as_str()), (true, "ok"));
    assert_eq!(told.status.unwrap().pid, Some(7));
    for (request, _) in requests() {
        let answers = HelperAnswers {
            started: Answer::Failed(no()),
            stopped: Answer::Failed(no()),
            state: Reading::Failed(no()),
        };
        let told = response(&request, answers).unwrap();
        assert_eq!((told.success, told.message.as_str()), (false, "no"));
        assert!(told.status.is_none());
    }
    assert_eq!(invalid_request("eof").message, "invalid request: eof");
}

#[test]
fn messages_stand_on_lines() {
    assert_eq!(frame_message("{\"a\":1}"), "{\"a\":1}\n");
    assert_eq!(message_of_line(&frame_message("{\"a\":1}")), "{\"a\":1}");
    assert_eq!(message_of_line("  x\r\n"), "x");
}
