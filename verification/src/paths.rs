//! Where the accelerator keeps its files.
use std::path::Path;
use vstd::prelude::*;
use crate::text::{
    chars_of, equal_ignoring_case, joined, number, option_str, option_text, parse_number,
    same_ignoring_case,
};

verus! {

// ---------------------------------------------------------------------------
// Paths as text
// ---------------------------------------------------------------------------
/// The path that `Path::join` makes of two, on the operating system that the
/// crate is built for.
pub uninterp spec fn path_join(base: Seq<char>, part: Seq<char>) -> Seq<char>;

/// What `Path::parent` gives, on the operating system that the crate is built
/// for.
pub uninterp spec fn path_parent(path: Seq<char>) -> Option<Seq<char>>;

/// What `Path::file_name` gives, on the operating system that the crate is
/// built for.
pub uninterp spec fn path_name(path: Seq<char>) -> Option<Seq<char>>;

/// Whether two paths are the same to `Path`, on the operating system that the
/// crate is built for.
pub uninterp spec fn path_same(a: Seq<char>, b: Seq<char>) -> bool;

/// `Path::join`. Nothing more is claimed of the path than that the two parts
/// determine it.
#[verifier::external_body]
pub(crate) fn join_path(base: &str, part: &str) -> (path: String)
    ensures
        path@ == path_join(base@, part@),
{
    Path::new(base).join(part).to_string_lossy().into_owned()
}

/// `Path::parent`. Nothing more is claimed of the outcome than that the path
/// determines it.
#[verifier::external_body]
fn parent_path(path: &str) -> (parent: Option<String>)
    ensures
        option_text(parent) == path_parent(path@),
{
    match Path::new(path).parent() {
        Some(parent) => Some(parent.to_string_lossy().into_owned()),
        None => None,
    }
}

/// `Path::file_name`. Nothing more is claimed of the outcome than that the
/// path determines it.
#[verifier::external_body]
pub(crate) fn file_name(path: &str) -> (name: Option<String>)
    ensures
        option_text(name) == path_name(path@),
{
    match Path::new(path).file_name() {
        Some(name) => Some(name.to_string_lossy().into_owned()),
        None => None,
    }
}

/// The equality of `Path`. The same text is the same path; nothing more is
/// claimed of the outcome than that the two paths determine it.
#[verifier::external_body]
fn same_path(a: &str, b: &str) -> (same: bool)
    ensures
        same == path_same(a@, b@),
        a@ == b@ ==> same,
{
    Path::new(a) == Path::new(b)
}

/// Two texts are the same path.
pub open spec fn one_path(a: Seq<char>, b: Seq<char>) -> bool {
    a == b || path_same(a, b)
}

// ---------------------------------------------------------------------------
// Default directories
// ---------------------------------------------------------------------------
/// The systems that differ in where files are kept.
#[derive(Clone, Copy, Debug, PartialEq, Eq, Structural)]
pub enum Platform {
    Ios,
    Android,
    Linux,
    Other,
}

/// What the environment says about directories.
pub struct DirSources {
    /// The container of the app, on iOS.
    pub ios_home: Option<String>,
    /// The home directory of the user, on Linux.
    pub linux_home: Option<String>,
    /// The directories for configuration and data that the system gives.
    pub project_dirs: Option<(String, String)>,
}

/// Why the files could not be placed.
#[derive(Clone, Debug, PartialEq, Eq)]
pub enum PathErrorOf<S> {
    NoIosHome,
    NoProjectDirs,
    InvalidConfigPath { path: S },
}

/// Why the files could not be placed.
pub type PathError = PathErrorOf<String>;

/// What a [`PathError`] says.
pub type PathErrorView = PathErrorOf<Seq<char>>;

impl View for PathErrorOf<String> {
    type V = PathErrorOf<Seq<char>>;

    open spec fn view(&self) -> PathErrorOf<Seq<char>> {
        match *self {
            PathErrorOf::NoIosHome => PathErrorOf::NoIosHome,
            PathErrorOf::NoProjectDirs => PathErrorOf::NoProjectDirs,
            PathErrorOf::InvalidConfigPath { path } => PathErrorOf::InvalidConfigPath {
                path: path@,
            },
        }
    }
}

/// Why the files could not be placed, in words.
pub open spec fn path_error_text(error: PathErrorView) -> Seq<char> {
    match error {
        PathErrorOf::NoIosHome => "LINUXDO_IOS_HOME not set (iOS container dir)"@,
        PathErrorOf::NoProjectDirs => "failed to resolve platform application directories"@,
        PathErrorOf::InvalidConfigPath { path } => "invalid config path "@ + path,
    }
}

impl PathErrorOf<String> {
    /// What is wrong, in words.
    pub fn message(self) -> (text: String)
        ensures
            text@ == path_error_text(self@),
    {
        match self {
            PathErrorOf::NoIosHome => "LINUXDO_IOS_HOME not set (iOS container dir)".to_owned(),
            PathErrorOf::NoProjectDirs => {
                "failed to resolve platform application directories".to_owned()
            },
            PathErrorOf::InvalidConfigPath { path } => {
                joined("invalid config path ", path.as_str())
            },
        }
    }
}

/// The pair of directories, as text.
pub open spec fn pair_text(pair: (String, String)) -> (Seq<char>, Seq<char>) {
    (pair.0@, pair.1@)
}

/// The directories for configuration and data below a root.
pub open spec fn below_root(root: Seq<char>) -> (Seq<char>, Seq<char>) {
    (path_join(root, "config"@), path_join(root, "data"@))
}

/// The directories for configuration and data.
pub open spec fn default_dirs(platform: Platform, sources: DirSources) -> Result<
    (Seq<char>, Seq<char>),
    PathErrorView,
> {
    let system = match sources.project_dirs {
        Some(pair) => Ok(pair_text(pair)),
        None => Err(PathErrorOf::NoProjectDirs),
    };
    match platform {
        Platform::Ios => match sources.ios_home {
            Some(root) => Ok(below_root(root@)),
            None => Err(PathErrorOf::NoIosHome),
        },
        Platform::Android => Ok(below_root("/data/local/tmp/linuxdo-accelerator"@)),
        Platform::Linux => match sources.linux_home {
            Some(home) => Ok(
                (
                    path_join(path_join(home@, ".config"@), "linuxdo-accelerator"@),
                    path_join(
                        path_join(path_join(home@, ".local"@), "share"@),
                        "linuxdo-accelerator"@,
                    ),
                ),
            ),
            None => system,
        },
        Platform::Other => system,
    }
}

fn dirs_below(root: &str) -> (dirs: (String, String))
    ensures
        pair_text(dirs) == below_root(root@),
{
    (join_path(root, "config"), join_path(root, "data"))
}

fn system_dirs(sources: DirSources) -> (r: Result<(String, String), PathError>)
    ensures
        match r {
            Ok(dirs) => sources.project_dirs matches Some(pair) && pair_text(dirs) == pair_text(
                pair,
            ),
            Err(e) => e@ == PathErrorOf::<Seq<char>>::NoProjectDirs && sources.project_dirs is None,
        },
{
    match sources.project_dirs {
        Some(dirs) => Ok(dirs),
        None => Err(PathErrorOf::NoProjectDirs),
    }
}

/// The directories for configuration and data.
pub fn default_app_dirs(platform: Platform, sources: DirSources) -> (r: Result<
    (String, String),
    PathError,
>)
    ensures
        match r {
            Ok(dirs) => default_dirs(platform, sources) == Ok::<
                (Seq<char>, Seq<char>),
                PathErrorView,
            >(pair_text(dirs)),
            Err(e) => default_dirs(platform, sources) == Err::<
                (Seq<char>, Seq<char>),
                PathErrorView,
            >(e@),
        },
{
    match platform {
        Platform::Ios => match sources.ios_home {
            Some(root) => Ok(dirs_below(root.as_str())),
            None => Err(PathErrorOf::NoIosHome),
        },
        Platform::Android => Ok(dirs_below("/data/local/tmp/linuxdo-accelerator")),
        Platform::Linux => match &sources.linux_home {
            Some(home) => {
                let config = join_path(home.as_str(), ".config");
                let local = join_path(home.as_str(), ".local");
                let share = join_path(local.as_str(), "share");
                Ok(
                    (
                        join_path(config.as_str(), "linuxdo-accelerator"),
                        join_path(share.as_str(), "linuxdo-accelerator"),
                    ),
                )
            },
            None => system_dirs(sources),
        },
        Platform::Other => system_dirs(sources),
    }
}

/// The user on whose behalf the process runs with raised rights.
pub open spec fn acting_user(
    pkexec_uid: Option<Seq<char>>,
    sudo_uid: Option<Seq<char>>,
) -> Option<nat> {
    match pkexec_uid {
        Some(text) => number(text, 10, u32::MAX as nat),
        None => match sudo_uid {
            Some(text) => number(text, 10, u32::MAX as nat),
            None => None,
        },
    }
}

/// The user identifier that a text denotes.
pub fn parse_uid(text: &str) -> (uid: Option<u32>)
    ensures
        uid is Some <==> number(text@, 10, u32::MAX as nat) is Some,
        uid matches Some(u) ==> number(text@, 10, u32::MAX as nat) == Some(u as nat),
{
    match parse_number(chars_of(text).as_slice(), 10, 0xffff_ffff) {
        Some(uid) => Some(uid as u32),
        None => None,
    }
}

/// The user whose home directory is used, if the environment names one.
pub fn effective_linux_uid(pkexec_uid: Option<&str>, sudo_uid: Option<&str>) -> (uid: Option<u32>)
    ensures
        uid is Some <==> acting_user(option_str(pkexec_uid), option_str(sudo_uid)) is Some,
        uid matches Some(u) ==> acting_user(option_str(pkexec_uid), option_str(sudo_uid)) == Some(
            u as nat,
        ),
{
    match pkexec_uid {
        Some(text) => parse_uid(text),
        None => match sudo_uid {
            Some(text) => parse_uid(text),
            None => None,
        },
    }
}

/// The home directory that is used: that of the acting user, if it is known,
/// or else the one in the environment.
pub fn effective_linux_home_dir(user_home: Option<String>, env_home: Option<String>) -> (
    home: Option<String>)
    ensures
        option_text(home) == match user_home {
            Some(h) => Some(h@),
            None => option_text(env_home),
        },
{
    match user_home {
        Some(home) => Some(home),
        None => env_home,
    }
}

// ---------------------------------------------------------------------------
// The files
// ---------------------------------------------------------------------------
/// Where each file is kept.
#[derive(Debug, Clone)]
pub struct AppPaths {
    pub config_path: String,
    pub config_dir: String,
    pub data_dir: String,
    pub runtime_dir: String,
    pub cert_dir: String,
    pub state_path: String,
    pub pid_path: String,
    pub ui_lease_path: String,
    pub ui_window_path: String,
    pub runtime_log_path: String,
    pub hosts_backup_path: String,
    pub hosts_backup_meta_path: String,
}

/// What [`AppPaths`] holds.
#[verifier::ext_equal]
pub struct PathsView {
    pub config_path: Seq<char>,
    pub config_dir: Seq<char>,
    pub data_dir: Seq<char>,
    pub runtime_dir: Seq<char>,
    pub cert_dir: Seq<char>,
    pub state_path: Seq<char>,
    pub pid_path: Seq<char>,
    pub ui_lease_path: Seq<char>,
    pub ui_window_path: Seq<char>,
    pub runtime_log_path: Seq<char>,
    pub hosts_backup_path: Seq<char>,
    pub hosts_backup_meta_path: Seq<char>,
}

impl View for AppPaths {
    type V = PathsView;

    open spec fn view(&self) -> PathsView {
        PathsView {
            config_path: self.config_path@,
            config_dir: self.config_dir@,
            data_dir: self.data_dir@,
            runtime_dir: self.runtime_dir@,
            cert_dir: self.cert_dir@,
            state_path: self.state_path@,
            pid_path: self.pid_path@,
            ui_lease_path: self.ui_lease_path@,
            ui_window_path: self.ui_window_path@,
            runtime_log_path: self.runtime_log_path@,
            hosts_backup_path: self.hosts_backup_path@,
            hosts_backup_meta_path: self.hosts_backup_meta_path@,
        }
    }
}

/// The files of an installation whose data is in `data_dir`.
pub open spec fn layout(
    config_path: Seq<char>,
    config_dir: Seq<char>,
    data_dir: Seq<char>,
) -> PathsView {
    let runtime = path_join(data_dir, "runtime"@);
    PathsView {
        config_path,
        config_dir,
        data_dir,
        runtime_dir: runtime,
        cert_dir: path_join(data_dir, "certs"@),
        state_path: path_join(runtime, "service-state.json"@),
        pid_path: path_join(runtime, "linuxdo-accelerator.pid"@),
        ui_lease_path: path_join(runtime, "ui-lease.json"@),
        ui_window_path: path_join(runtime, "ui-window.json"@),
        runtime_log_path: path_join(runtime, "operations.log"@),
        hosts_backup_path: path_join(runtime, "hosts.backup"@),
        hosts_backup_meta_path: path_join(runtime, "hosts.backup.json"@),
    }
}

/// The directory is called `config`, in whatever case.
pub open spec fn called_config(dir: Seq<char>) -> bool {
    match path_name(dir) {
        Some(name) => same_ignoring_case(name, "config"@),
        None => false,
    }
}

/// The directory for data that goes with an explicit configuration: beside its
/// directory if that is called `config`, and else the directory itself.
pub open spec fn data_dir_beside(config_dir: Seq<char>, default_data_dir: Seq<char>) -> Seq<char> {
    if called_config(config_dir) {
        match path_parent(config_dir) {
            Some(root) => path_join(root, "data"@),
            None => default_data_dir,
        }
    } else {
        config_dir
    }
}

/// The files of the installation: those in the default directories, unless
/// another configuration is given.
pub open spec fn resolved_paths(
    config_override: Option<Seq<char>>,
    defaults: (Seq<char>, Seq<char>),
) -> Result<PathsView, PathErrorView> {
    let default_path = path_join(defaults.0, "linuxdo-accelerator.toml"@);
    let config_path = match config_override {
        Some(path) => path,
        None => default_path,
    };
    match path_parent(config_path) {
        None => Err(PathErrorOf::InvalidConfigPath { path: config_path }),
        Some(config_dir) => {
            let explicit = config_override is Some && !one_path(config_path, default_path);
            let data_dir = if explicit {
                data_dir_beside(config_dir, defaults.1)
            } else {
                defaults.1
            };
            Ok(layout(config_path, config_dir, data_dir))
        },
    }
}

impl AppPaths {
    /// Says where each file is kept. `default_dirs` are the directories for
    /// configuration and data.
    pub fn resolve(config_override: Option<String>, default_dirs: (String, String)) -> (r: Result<
        AppPaths,
        PathError,
    >)
        ensures
            match r {
                Ok(paths) => resolved_paths(option_text(config_override), pair_text(default_dirs))
                    == Ok::<PathsView, PathErrorView>(paths@),
                Err(e) => resolved_paths(option_text(config_override), pair_text(default_dirs))
                    == Err::<PathsView, PathErrorView>(e@),
            },
    {
        let (default_config_dir, default_data_dir) = default_dirs;
        let default_config_path = join_path(
            default_config_dir.as_str(),
            "linuxdo-accelerator.toml",
        );
        let has_override = config_override.is_some();
        let config_path = match config_override {
            Some(path) => path,
            None => default_config_path.clone(),
        };
        let config_dir = match parent_path(config_path.as_str()) {
            Some(dir) => dir,
            None => {
                return Err(PathErrorOf::InvalidConfigPath { path: config_path });
            },
        };
        let explicit = has_override && !same_path(
            config_path.as_str(),
            default_config_path.as_str(),
        );
        let data_dir = if explicit {
            let is_config = match file_name(config_dir.as_str()) {
                Some(name) => equal_ignoring_case(name.as_str(), "config"),
                None => false,
            };
            if is_config {
                match parent_path(config_dir.as_str()) {
                    Some(root) => join_path(root.as_str(), "data"),
                    None => default_data_dir,
                }
            } else {
                config_dir.clone()
            }
        } else {
            default_data_dir
        };
        let runtime_dir = join_path(data_dir.as_str(), "runtime");
        let cert_dir = join_path(data_dir.as_str(), "certs");
        let state_path = join_path(runtime_dir.as_str(), "service-state.json");
        let pid_path = join_path(runtime_dir.as_str(), "linuxdo-accelerator.pid");
        let ui_lease_path = join_path(runtime_dir.as_str(), "ui-lease.json");
        let ui_window_path = join_path(runtime_dir.as_str(), "ui-window.json");
        let runtime_log_path = join_path(runtime_dir.as_str(), "operations.log");
        let hosts_backup_path = join_path(runtime_dir.as_str(), "hosts.backup");
        let hosts_backup_meta_path = join_path(runtime_dir.as_str(), "hosts.backup.json");
        Ok(
            AppPaths {
                config_path,
                config_dir,
                data_dir,
                runtime_dir,
                cert_dir,
                state_path,
                pid_path,
                ui_lease_path,
                ui_window_path,
                runtime_log_path,
                hosts_backup_path,
                hosts_backup_meta_path,
            },
        )
    }

    /// What has to be done before the files can be kept there.
    pub fn ensure_layout(&self) -> (steps: Vec<LayoutStep<String>>)
        ensures
            layout_views(steps@) == layout_steps(self@),
    {
        let mut steps: Vec<LayoutStep<String>> = Vec::new();
        steps.push(LayoutStep::CreateDir(self.config_dir.clone()));
        steps.push(LayoutStep::CreateDir(self.data_dir.clone()));
        steps.push(LayoutStep::CreateDir(self.runtime_dir.clone()));
        steps.push(LayoutStep::CreateDir(self.cert_dir.clone()));
        steps.push(LayoutStep::GiveToUser(self.config_dir.clone()));
        steps.push(LayoutStep::GiveToUser(self.data_dir.clone()));
        assert(layout_views(steps@) =~= layout_steps(self@));
        steps
    }
}

/// One step of preparing the directories.
pub enum LayoutStep<S> {
    /// Create the directory, and those above it.
    CreateDir(S),
    /// Make the user its owner.
    GiveToUser(S),
}

impl View for LayoutStep<String> {
    type V = LayoutStep<Seq<char>>;

    open spec fn view(&self) -> LayoutStep<Seq<char>> {
        match *self {
            LayoutStep::CreateDir(dir) => LayoutStep::CreateDir(dir@),
            LayoutStep::GiveToUser(dir) => LayoutStep::GiveToUser(dir@),
        }
    }
}

/// What some steps say.
pub open spec fn layout_views(steps: Seq<LayoutStep<String>>) -> Seq<LayoutStep<Seq<char>>> {
    steps.map_values(|s: LayoutStep<String>| s@)
}

/// What has to be done before the files can be kept there: each directory is
/// there before anything in it, and what holds the others is given to the user
/// at the end.
pub open spec fn layout_steps(paths: PathsView) -> Seq<LayoutStep<Seq<char>>> {
    seq![
        LayoutStep::CreateDir(paths.config_dir),
        LayoutStep::CreateDir(paths.data_dir),
        LayoutStep::CreateDir(paths.runtime_dir),
        LayoutStep::CreateDir(paths.cert_dir),
        LayoutStep::GiveToUser(paths.config_dir),
        LayoutStep::GiveToUser(paths.data_dir),
    ]
}

/// The error of a step that failed.
pub fn layout_error(step: &LayoutStep<String>, error: &str) -> (text: String)
    ensures
        text@ == match step@ {
            LayoutStep::CreateDir(dir) => "failed to create "@ + dir + ": "@ + error@,
            LayoutStep::GiveToUser(_) => error@,
        },
{
    match step {
        LayoutStep::CreateDir(dir) => joined(
            joined("failed to create ", dir.as_str()).as_str(),
            joined(": ", error).as_str(),
        ),
        LayoutStep::GiveToUser(_) => error.to_owned(),
    }
}

/// Where each file is kept on this system, and what has to be done first.
pub fn resolve_paths(config_override: Option<String>, platform: Platform, sources: DirSources) -> (
    r: Result<(AppPaths, Vec<LayoutStep<String>>), PathError>)
    ensures
        match r {
            Ok((paths, steps)) => {
                &&& default_dirs(platform, sources) is Ok
                &&& resolved_paths(
                    option_text(config_override),
                    default_dirs(platform, sources)->Ok_0,
                ) == Ok::<PathsView, PathErrorView>(paths@)
                &&& layout_views(steps@) == layout_steps(paths@)
            },
            Err(e) => match default_dirs(platform, sources) {
                Err(error) => e@ == error,
                Ok(dirs) => resolved_paths(option_text(config_override), dirs) == Err::<
                    PathsView,
                    PathErrorView,
                >(e@),
            },
        },
{
    match default_app_dirs(platform, sources) {
        Err(e) => Err(e),
        Ok(dirs) => match AppPaths::resolve(config_override, dirs) {
            Err(e) => Err(e),
            Ok(paths) => {
                let steps = paths.ensure_layout();
                Ok((paths, steps))
            },
        },
    }
}

// ---------------------------------------------------------------------------
// Laws
// ---------------------------------------------------------------------------
/// An explicit configuration takes the other files along: those for running
/// and the certificates are in the directory for data that goes with it.
pub proof fn files_follow_an_explicit_configuration(
    config: Seq<char>,
    config_dir: Seq<char>,
    defaults: (Seq<char>, Seq<char>),
)
    requires
        path_parent(config) == Some(config_dir),
        !one_path(config, path_join(defaults.0, "linuxdo-accelerator.toml"@)),
    ensures
        resolved_paths(Some(config), defaults) matches Ok(paths) && {
            &&& paths.config_path == config
            &&& paths.data_dir == data_dir_beside(config_dir, defaults.1)
            &&& paths.runtime_dir == path_join(paths.data_dir, "runtime"@)
            &&& paths.cert_dir == path_join(paths.data_dir, "certs"@)
        },
        !called_config(config_dir) ==> resolved_paths(Some(config), defaults)->Ok_0.data_dir
            == config_dir,
{
}

/// Naming the default configuration explicitly changes nothing.
pub proof fn naming_the_default_changes_nothing(
    defaults: (Seq<char>, Seq<char>),
    paths: PathsView,
)
    requires
        resolved_paths(None, defaults) == Ok::<PathsView, PathErrorView>(paths),
    ensures
        resolved_paths(Some(paths.config_path), defaults) == Ok::<PathsView, PathErrorView>(paths),
{
}

/// Naming it in another way that is the same path changes nothing but how the
/// path is written.
pub proof fn the_default_may_be_named(
    config: Seq<char>,
    defaults: (Seq<char>, Seq<char>),
)
    requires
        one_path(config, path_join(defaults.0, "linuxdo-accelerator.toml"@)),
        path_parent(config) is Some,
        path_parent(path_join(defaults.0, "linuxdo-accelerator.toml"@)) is Some,
    ensures
        ({
            let named = resolved_paths(Some(config), defaults)->Ok_0;
            let unnamed = resolved_paths(None, defaults)->Ok_0;
            named == PathsView {
                config_path: config,
                config_dir: path_parent(config)->0,
                ..unnamed
            }
        }),
{
}

/// The configuration is in its directory, and the files for running and the
/// certificates are below the directory for data. There is no such place if and
/// only if the configuration would be in no directory.
pub proof fn files_are_where_they_belong(
    config_override: Option<Seq<char>>,
    defaults: (Seq<char>, Seq<char>),
)
    ensures
        resolved_paths(config_override, defaults) matches Ok(p) ==> {
            &&& path_parent(p.config_path) == Some(p.config_dir)
            &&& p.runtime_dir == path_join(p.data_dir, "runtime"@)
            &&& p.cert_dir == path_join(p.data_dir, "certs"@)
        },
        resolved_paths(config_override, defaults) is Err <==> path_parent(
            match config_override {
                Some(path) => path,
                None => path_join(defaults.0, "linuxdo-accelerator.toml"@),
            },
        ) is None,
{
}

/// The files for running are all in one directory.
pub proof fn state_is_kept_together(
    config_override: Option<Seq<char>>,
    defaults: (Seq<char>, Seq<char>),
)
    requires
        resolved_paths(config_override, defaults) is Ok,
    ensures
        ({
            let p = resolved_paths(config_override, defaults)->Ok_0;
            &&& p.state_path == path_join(p.runtime_dir, "service-state.json"@)
            &&& p.pid_path == path_join(p.runtime_dir, "linuxdo-accelerator.pid"@)
            &&& p.ui_lease_path == path_join(p.runtime_dir, "ui-lease.json"@)
            &&& p.ui_window_path == path_join(p.runtime_dir, "ui-window.json"@)
            &&& p.runtime_log_path == path_join(p.runtime_dir, "operations.log"@)
            &&& p.hosts_backup_path == path_join(p.runtime_dir, "hosts.backup"@)
            &&& p.hosts_backup_meta_path == path_join(p.runtime_dir, "hosts.backup.json"@)
        }),
{
}

} // verus!
