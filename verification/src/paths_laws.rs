//! Where the files of an installation are, on every system and for every user.
use vstd::prelude::*;
use crate::paths::{
    acting_user, default_dirs, layout_steps, path_error_text, path_join, path_name, path_parent,
    path_same, resolved_paths, DirSources, LayoutStep, PathErrorOf, PathErrorView, PathsView,
    Platform,
};
use crate::text::{number, same_ignoring_case};

verus! {

/// On iOS the files are in the container of the app, and without one there is no place for
/// them.
pub proof fn files_on_ios(sources: DirSources)
    ensures
        sources.ios_home matches Some(root) ==> default_dirs(Platform::Ios, sources) == Ok::<
            (Seq<char>, Seq<char>),
            PathErrorView,
        >((path_join(root@, "config"@), path_join(root@, "data"@))),
        sources.ios_home is None ==> default_dirs(Platform::Ios, sources) == Err::<
            (Seq<char>, Seq<char>),
            PathErrorView,
        >(PathErrorOf::NoIosHome),
{
}

/// On Android the files are always in the same place.
pub proof fn files_on_android(sources: DirSources)
    ensures
        default_dirs(Platform::Android, sources) == Ok::<(Seq<char>, Seq<char>), PathErrorView>(
            (
                path_join("/data/local/tmp/linuxdo-accelerator"@, "config"@),
                path_join("/data/local/tmp/linuxdo-accelerator"@, "data"@),
            ),
        ),
{
}

/// On Linux the files are below the home directory of the user, and if that is not known,
/// where the system says.
pub proof fn files_on_linux(sources: DirSources)
    ensures
        sources.linux_home matches Some(home) ==> default_dirs(Platform::Linux, sources) == Ok::<
            (Seq<char>, Seq<char>),
            PathErrorView,
        >(
            (
                path_join(path_join(home@, ".config"@), "linuxdo-accelerator"@),
                path_join(
                    path_join(path_join(home@, ".local"@), "share"@),
                    "linuxdo-accelerator"@,
                ),
            ),
        ),
        sources.linux_home is None ==> default_dirs(Platform::Linux, sources) == default_dirs(
            Platform::Other,
            sources,
        ),
{
}

/// Elsewhere the files are where the system says, and if it says nothing there is no place
/// for them.
pub proof fn files_elsewhere(sources: DirSources)
    ensures
        sources.project_dirs matches Some(pair) ==> default_dirs(Platform::Other, sources) == Ok::<
            (Seq<char>, Seq<char>),
            PathErrorView,
        >((pair.0@, pair.1@)),
        sources.project_dirs is None ==> default_dirs(Platform::Other, sources) == Err::<
            (Seq<char>, Seq<char>),
            PathErrorView,
        >(PathErrorOf::NoProjectDirs),
{
}

/// Each error is told in its own words, and that about a path names it.
pub proof fn what_is_wrong_with_a_path(path: Seq<char>)
    ensures
        path_error_text(PathErrorOf::NoIosHome) == "LINUXDO_IOS_HOME not set (iOS container dir)"@,
        path_error_text(PathErrorOf::NoProjectDirs)
            == "failed to resolve platform application directories"@,
        path_error_text(PathErrorOf::InvalidConfigPath { path }) == "invalid config path "@ + path,
{
}

/// Without another configuration it is the default one, and the data is where it is by
/// default.
pub proof fn without_a_choice_all_is_in_its_place(defaults: (Seq<char>, Seq<char>))
    ensures
        ({
            let path = path_join(defaults.0, "linuxdo-accelerator.toml"@);
            &&& path_parent(path) matches Some(dir) ==> {
                &&& resolved_paths(None, defaults) matches Ok(p)
                &&& p.config_path == path
                &&& p.config_dir == dir
                &&& p.data_dir == defaults.1
            }
            &&& path_parent(path) is None ==> resolved_paths(None, defaults) == Err::<
                PathsView,
                PathErrorView,
            >(PathErrorOf::InvalidConfigPath { path })
        }),
{
}

/// The data of another configuration is with it: beside its directory if that is called
/// `config`, in whatever case, and in that directory if not.
pub proof fn the_data_goes_with_the_configuration(
    config: Seq<char>,
    dir: Seq<char>,
    name: Seq<char>,
    root: Seq<char>,
    defaults: (Seq<char>, Seq<char>),
)
    requires
        path_parent(config) == Some(dir),
        config != path_join(defaults.0, "linuxdo-accelerator.toml"@),
        !path_same(config, path_join(defaults.0, "linuxdo-accelerator.toml"@)),
    ensures
        resolved_paths(Some(config), defaults) matches Ok(p) && p.config_path == config
            && p.config_dir == dir,
        path_name(dir) is None ==> resolved_paths(Some(config), defaults)->Ok_0.data_dir == dir,
        path_name(dir) == Some(name) && !same_ignoring_case(name, "config"@) ==> resolved_paths(
            Some(config),
            defaults,
        )->Ok_0.data_dir == dir,
        path_name(dir) == Some(name) && same_ignoring_case(name, "config"@) && path_parent(dir)
            == Some(root) ==> resolved_paths(Some(config), defaults)->Ok_0.data_dir == path_join(
            root,
            "data"@,
        ),
        path_name(dir) == Some(name) && same_ignoring_case(name, "config"@) && path_parent(dir)
            is None ==> resolved_paths(Some(config), defaults)->Ok_0.data_dir == defaults.1,
{
}

/// A configuration that is in no directory is an error, which names it.
pub proof fn a_configuration_is_in_a_directory(
    config: Seq<char>,
    defaults: (Seq<char>, Seq<char>),
)
    requires
        path_parent(config) is None,
    ensures
        resolved_paths(Some(config), defaults) == Err::<PathsView, PathErrorView>(
            PathErrorOf::InvalidConfigPath { path: config },
        ),
{
}

/// The user who asked for the rights by `pkexec` counts before the one who did by `sudo`,
/// and what is no number of a user names nobody.
pub proof fn who_asked_for_the_rights(pkexec_uid: Seq<char>, sudo_uid: Seq<char>)
    ensures
        acting_user(Some(pkexec_uid), Some(sudo_uid)) == number(pkexec_uid, 10, 0xffff_ffff),
        acting_user(Some(pkexec_uid), None) == number(pkexec_uid, 10, 0xffff_ffff),
        acting_user(None, Some(sudo_uid)) == number(sudo_uid, 10, 0xffff_ffff),
        acting_user(None, None) is None,
{
}

/// Every directory that files are kept in is created, one above before one below, and then
/// the two at the top are given to the user; nothing else is done.
pub proof fn every_directory_is_prepared(paths: PathsView)
    ensures
        layout_steps(paths).len() == 6,
        layout_steps(paths)[0] == LayoutStep::CreateDir(paths.config_dir),
        layout_steps(paths)[1] == LayoutStep::CreateDir(paths.data_dir),
        layout_steps(paths)[2] == LayoutStep::CreateDir(paths.runtime_dir),
        layout_steps(paths)[3] == LayoutStep::CreateDir(paths.cert_dir),
        layout_steps(paths)[4] == LayoutStep::GiveToUser(paths.config_dir),
        layout_steps(paths)[5] == LayoutStep::GiveToUser(paths.data_dir),
{
}

} // verus!
