//! Reading a request: which command it names and the arguments that command
//! takes, checked for presence and type in the order the command reads them.

use vstd::prelude::*;
use vstd::string::*;

use crate::assoc::{distinct_keys, key_view, map_of, table_find};
use crate::commands::missing_arg;
use crate::error::{detail_payload, AppError, ErrorKind};
use crate::text::{chars_of, concat_str, eq_vec, str_to_string};

verus! {

/// An argument value as the library reads it: a string, a boolean, an
/// unsigned integer, or anything else.
#[derive(Debug)]
pub enum ArgValue {
    Str(String),
    Bool(bool),
    U64(u64),
    Other,
}

/// How a command reads one argument.
#[derive(Debug, Clone, Copy, PartialEq, Eq, Structural)]
pub enum ArgKind {
    /// A required string.
    Str,
    /// A required boolean.
    Bool,
    /// A required unsigned integer, kept modulo 2^16.
    U16,
    /// An optional string.
    OptStr,
    /// An optional unsigned integer, kept modulo 2^16.
    OptU16,
    /// An optional boolean.
    OptBool,
    /// A required value of any shape, decoded by the caller.
    Typed,
}

/// An argument as read.
#[derive(Debug)]
pub enum ArgOut {
    Str(String),
    Bool(bool),
    U16(u16),
    OptStr(Option<String>),
    OptU16(Option<u16>),
    OptBool(Option<bool>),
    Typed,
}

/// An argument value with its text by characters.
pub enum ArgValueView {
    Str(Seq<char>),
    Bool(bool),
    U64(u64),
    Other,
}

/// An argument as read, with its text by characters.
pub enum ArgOutView {
    Str(Seq<char>),
    Bool(bool),
    U16(u16),
    OptStr(Option<Seq<char>>),
    OptU16(Option<u16>),
    OptBool(Option<bool>),
    Typed,
}

pub open spec fn value_view(v: ArgValue) -> ArgValueView {
    match v {
        ArgValue::Str(s) => ArgValueView::Str(s@),
        ArgValue::Bool(b) => ArgValueView::Bool(b),
        ArgValue::U64(n) => ArgValueView::U64(n),
        ArgValue::Other => ArgValueView::Other,
    }
}

pub open spec fn out_view(o: ArgOut) -> ArgOutView {
    match o {
        ArgOut::Str(s) => ArgOutView::Str(s@),
        ArgOut::Bool(b) => ArgOutView::Bool(b),
        ArgOut::U16(n) => ArgOutView::U16(n),
        ArgOut::OptStr(s) => ArgOutView::OptStr(
            match s {
                Some(x) => Some(x@),
                None => None,
            },
        ),
        ArgOut::OptU16(n) => ArgOutView::OptU16(n),
        ArgOut::OptBool(b) => ArgOutView::OptBool(b),
        ArgOut::Typed => ArgOutView::Typed,
    }
}

pub open spec fn outs_view(v: Seq<ArgOut>) -> Seq<ArgOutView> {
    v.map_values(|o: ArgOut| out_view(o))
}

pub open spec fn args_view(a: Seq<(String, ArgValue)>) -> Seq<(Seq<char>, ArgValueView)> {
    a.map_values(|p: (String, ArgValue)| (p.0@, value_view(p.1)))
}

pub open spec fn sig_view(s: Seq<(&'static str, ArgKind)>) -> Seq<(Seq<char>, ArgKind)> {
    s.map_values(|p: (&'static str, ArgKind)| (p.0@, p.1))
}

/// The value of the argument named `k`, if the request has one.
pub open spec fn lookup(args: Seq<(Seq<char>, ArgValueView)>, k: Seq<char>) -> Option<ArgValueView> {
    if map_of(args).dom().contains(k) {
        Some(map_of(args)[k])
    } else {
        None
    }
}

/// A number kept modulo 2^16.
pub open spec fn low16(n: u64) -> u16 {
    (n % 65536) as u16
}

/// An argument read as `kind`; `None` when a required argument is absent or
/// of another type (an optional one of another type reads as absent).
pub open spec fn read_arg(v: Option<ArgValueView>, kind: ArgKind) -> Option<ArgOutView> {
    match kind {
        ArgKind::Str => match v {
            Some(ArgValueView::Str(s)) => Some(ArgOutView::Str(s)),
            _ => None,
        },
        ArgKind::Bool => match v {
            Some(ArgValueView::Bool(b)) => Some(ArgOutView::Bool(b)),
            _ => None,
        },
        ArgKind::U16 => match v {
            Some(ArgValueView::U64(n)) => Some(ArgOutView::U16(low16(n))),
            _ => None,
        },
        ArgKind::OptStr => match v {
            Some(ArgValueView::Str(s)) => Some(ArgOutView::OptStr(Some(s))),
            _ => Some(ArgOutView::OptStr(None)),
        },
        ArgKind::OptU16 => match v {
            Some(ArgValueView::U64(n)) => Some(ArgOutView::OptU16(Some(low16(n)))),
            _ => Some(ArgOutView::OptU16(None)),
        },
        ArgKind::OptBool => match v {
            Some(ArgValueView::Bool(b)) => Some(ArgOutView::OptBool(Some(b))),
            _ => Some(ArgOutView::OptBool(None)),
        },
        ArgKind::Typed => match v {
            Some(_) => Some(ArgOutView::Typed),
            None => None,
        },
    }
}

/// The arguments of a signature read in order: all of them, or the name of
/// the first one that is missing.
pub open spec fn read_args_spec(args: Seq<(Seq<char>, ArgValueView)>, sig: Seq<(Seq<char>, ArgKind)>) -> Result<
    Seq<ArgOutView>,
    Seq<char>,
>
    decreases sig.len(),
{
    if sig.len() == 0 {
        Ok(Seq::empty())
    } else {
        match read_args_spec(args, sig.drop_last()) {
            Err(k) => Err(k),
            Ok(prev) => match read_arg(lookup(args, sig.last().0), sig.last().1) {
                Some(o) => Ok(prev.push(o)),
                None => Err(sig.last().0),
            },
        }
    }
}

fn low16_of(n: u64) -> (r: u16)
    ensures
        r == low16(n),
{
    (n % 65536) as u16
}

fn read_one(args: &Vec<(String, ArgValue)>, name: &str, kind: ArgKind) -> (r: Option<ArgOut>)
    requires
        distinct_keys(key_view(args@)),
    ensures
        match r {
            Some(o) => read_arg(lookup(args_view(args@), name@), kind) == Some(out_view(o)),
            None => read_arg(lookup(args_view(args@), name@), kind) is None,
        },
{
    let found = table_find(args, name);
    proof {
        lemma_lookup(args@, name@);
    }
    let v: Option<&ArgValue> = match found {
        Some(i) => Some(&args[i].1),
        None => None,
    };
    match kind {
        ArgKind::Str => match v {
            Some(ArgValue::Str(s)) => Some(ArgOut::Str(s.clone())),
            _ => None,
        },
        ArgKind::Bool => match v {
            Some(ArgValue::Bool(b)) => Some(ArgOut::Bool(*b)),
            _ => None,
        },
        ArgKind::U16 => match v {
            Some(ArgValue::U64(n)) => Some(ArgOut::U16(low16_of(*n))),
            _ => None,
        },
        ArgKind::OptStr => match v {
            Some(ArgValue::Str(s)) => Some(ArgOut::OptStr(Some(s.clone()))),
            _ => Some(ArgOut::OptStr(None)),
        },
        ArgKind::OptU16 => match v {
            Some(ArgValue::U64(n)) => Some(ArgOut::OptU16(Some(low16_of(*n)))),
            _ => Some(ArgOut::OptU16(None)),
        },
        ArgKind::OptBool => match v {
            Some(ArgValue::Bool(b)) => Some(ArgOut::OptBool(Some(*b))),
            _ => Some(ArgOut::OptBool(None)),
        },
        ArgKind::Typed => match v {
            Some(_) => Some(ArgOut::Typed),
            None => None,
        },
    }
}

proof fn lemma_lookup(args: Seq<(String, ArgValue)>, k: Seq<char>)
    ensures
        map_of(key_view(args)).dom().contains(k) <==> map_of(args_view(args)).dom().contains(k),
        map_of(key_view(args)).dom().contains(k) ==> map_of(args_view(args))[k] == value_view(
            map_of(key_view(args))[k],
        ),
    decreases args.len(),
{
    if args.len() > 0 {
        lemma_lookup(args.drop_last(), k);
        assert(key_view(args.drop_last()) =~= key_view(args).drop_last());
        assert(args_view(args.drop_last()) =~= args_view(args).drop_last());
    }
}

/// Reads the arguments of a signature in order; stops at the first missing one.
pub fn read_args(args: &Vec<(String, ArgValue)>, sig: &Vec<(&'static str, ArgKind)>) -> (r: Result<
    Vec<ArgOut>,
    AppError,
>)
    requires
        distinct_keys(key_view(args@)),
    ensures
        match read_args_spec(args_view(args@), sig_view(sig@)) {
            Ok(outs) => r matches Ok(v) && outs_view(v@) == outs,
            Err(k) => r matches Err(e) && e@ == (ErrorKind::Other, detail_payload("缺少参数: "@ + k)),
        },
{
    let ghost sv = sig_view(sig@);
    let mut out: Vec<ArgOut> = Vec::new();
    let mut i: usize = 0;
    assert(sv.take(0) =~= Seq::<(Seq<char>, ArgKind)>::empty());
    assert(outs_view(out@) =~= Seq::<ArgOutView>::empty());
    while i < sig.len()
        invariant
            i <= sig@.len(),
            sv == sig_view(sig@),
            distinct_keys(key_view(args@)),
            read_args_spec(args_view(args@), sv.take(i as int)) == Ok::<Seq<ArgOutView>, Seq<char>>(
                outs_view(out@),
            ),
        decreases sig.len() - i,
    {
        proof {
            assert(sv.take(i + 1).drop_last() =~= sv.take(i as int));
            assert(sv[i as int] == (sig@[i as int].0@, sig@[i as int].1));
        }
        let (name, kind) = sig[i];
        match read_one(args, name, kind) {
            Some(o) => {
                let ghost ob = out@;
                out.push(o);
                proof {
                    assert(outs_view(out@) =~= outs_view(ob).push(out_view(o)));
                }
            },
            None => {
                proof {
                    lemma_read_args_prefix(args_view(args@), sv, i as int + 1);
                }
                return Err(missing_arg(name));
            },
        }
        i = i + 1;
    }
    assert(sv.take(i as int) =~= sv);
    Ok(out)
}

/// Once reading stops at an argument, reading more arguments stops there too.
proof fn lemma_read_args_prefix(args: Seq<(Seq<char>, ArgValueView)>, sig: Seq<(Seq<char>, ArgKind)>, n: int)
    requires
        0 <= n <= sig.len(),
        read_args_spec(args, sig.take(n)) is Err,
    ensures
        read_args_spec(args, sig) == read_args_spec(args, sig.take(n)),
    decreases sig.len() - n,
{
    if n < sig.len() {
        assert(sig.take(n + 1).drop_last() =~= sig.take(n));
        lemma_read_args_prefix(args, sig, n + 1);
    } else {
        assert(sig.take(n) =~= sig);
    }
}

/// The commands a request can name.
#[derive(Debug, Clone, Copy, PartialEq, Eq, Structural)]
pub enum CommandId {
    GetAppSnapshot,
    RebuildAppSnapshot,
    GetVersion,
    GetSystemdStatus,
    CompareVersions,
    SaveGithubProxy,
    SaveProxy,
    SavePypiMirror,
    SaveMainlandAcceleration,
    SaveUseUvForDeps,
    SaveCloseToTray,
    SaveAutostartMinimizeToTray,
    SaveCheckInstanceUpdate,
    SavePersistInstanceState,
    SaveIgnoreExternalPath,
    SaveLockCheckExtensionWhitelist,
    SaveThemePreference,
    SaveNodejsMirror,
    SaveNpmRegistry,
    InstallComponent,
    ReinstallComponent,
    UninstallComponent,
    FetchReleases,
    FetchLauncherReleaseNotes,
    InstallVersion,
    UninstallVersion,
    CheckLock,
    ClearInstanceData,
    ClearInstanceVenv,
    ClearPycache,
    RepairInstance,
    RebuildInstanceManifest,
    CreateInstance,
    DeleteInstance,
    UpdateInstance,
    StartInstance,
    StopInstance,
    RestartInstance,
    GetInstancePort,
    CreateBackup,
    RestoreBackup,
    DeleteBackup,
    SetSystemdEnabled,
    RestartManager,
    StopManager,
}

/// The command a request names, by its exact name.
pub open spec fn command_id_spec(cmd: Seq<char>) -> Option<CommandId> {
    if cmd == "get_app_snapshot"@ {
        Some(CommandId::GetAppSnapshot)
    } else if cmd == "rebuild_app_snapshot"@ {
        Some(CommandId::RebuildAppSnapshot)
    } else if cmd == "get_version"@ {
        Some(CommandId::GetVersion)
    } else if cmd == "get_systemd_status"@ {
        Some(CommandId::GetSystemdStatus)
    } else if cmd == "compare_versions"@ {
        Some(CommandId::CompareVersions)
    } else if cmd == "save_github_proxy"@ {
        Some(CommandId::SaveGithubProxy)
    } else if cmd == "save_proxy"@ {
        Some(CommandId::SaveProxy)
    } else if cmd == "save_pypi_mirror"@ {
        Some(CommandId::SavePypiMirror)
    } else if cmd == "save_mainland_acceleration"@ {
        Some(CommandId::SaveMainlandAcceleration)
    } else if cmd == "save_use_uv_for_deps"@ {
        Some(CommandId::SaveUseUvForDeps)
    } else if cmd == "save_close_to_tray"@ {
        Some(CommandId::SaveCloseToTray)
    } else if cmd == "save_autostart_minimize_to_tray"@ {
        Some(CommandId::SaveAutostartMinimizeToTray)
    } else if cmd == "save_check_instance_update"@ {
        Some(CommandId::SaveCheckInstanceUpdate)
    } else if cmd == "save_persist_instance_state"@ {
        Some(CommandId::SavePersistInstanceState)
    } else if cmd == "save_ignore_external_path"@ {
        Some(CommandId::SaveIgnoreExternalPath)
    } else if cmd == "save_lock_check_extension_whitelist"@ {
        Some(CommandId::SaveLockCheckExtensionWhitelist)
    } else if cmd == "save_theme_preference"@ {
        Some(CommandId::SaveThemePreference)
    } else if cmd == "save_nodejs_mirror"@ {
        Some(CommandId::SaveNodejsMirror)
    } else if cmd == "save_npm_registry"@ {
        Some(CommandId::SaveNpmRegistry)
    } else if cmd == "install_component"@ {
        Some(CommandId::InstallComponent)
    } else if cmd == "reinstall_component"@ {
        Some(CommandId::ReinstallComponent)
    } else if cmd == "uninstall_component"@ {
        Some(CommandId::UninstallComponent)
    } else if cmd == "fetch_releases"@ {
        Some(CommandId::FetchReleases)
    } else if cmd == "fetch_launcher_release_notes"@ {
        Some(CommandId::FetchLauncherReleaseNotes)
    } else if cmd == "install_version"@ {
        Some(CommandId::InstallVersion)
    } else if cmd == "uninstall_version"@ {
        Some(CommandId::UninstallVersion)
    } else if cmd == "check_lock"@ {
        Some(CommandId::CheckLock)
    } else if cmd == "clear_instance_data"@ {
        Some(CommandId::ClearInstanceData)
    } else if cmd == "clear_instance_venv"@ {
        Some(CommandId::ClearInstanceVenv)
    } else if cmd == "clear_pycache"@ {
        Some(CommandId::ClearPycache)
    } else if cmd == "repair_instance"@ {
        Some(CommandId::RepairInstance)
    } else if cmd == "rebuild_instance_manifest"@ {
        Some(CommandId::RebuildInstanceManifest)
    } else if cmd == "create_instance"@ {
        Some(CommandId::CreateInstance)
    } else if cmd == "delete_instance"@ {
        Some(CommandId::DeleteInstance)
    } else if cmd == "update_instance"@ {
        Some(CommandId::UpdateInstance)
    } else if cmd == "start_instance"@ {
        Some(CommandId::StartInstance)
    } else if cmd == "stop_instance"@ {
        Some(CommandId::StopInstance)
    } else if cmd == "restart_instance"@ {
        Some(CommandId::RestartInstance)
    } else if cmd == "get_instance_port"@ {
        Some(CommandId::GetInstancePort)
    } else if cmd == "create_backup"@ {
        Some(CommandId::CreateBackup)
    } else if cmd == "restore_backup"@ {
        Some(CommandId::RestoreBackup)
    } else if cmd == "delete_backup"@ {
        Some(CommandId::DeleteBackup)
    } else if cmd == "set_systemd_enabled"@ {
        Some(CommandId::SetSystemdEnabled)
    } else if cmd == "restart_manager"@ {
        Some(CommandId::RestartManager)
    } else if cmd == "stop_manager"@ {
        Some(CommandId::StopManager)
    } else {
        None
    }
}

/// The arguments each command reads, in the order it reads them.
pub open spec fn signature_spec(id: CommandId) -> Seq<(Seq<char>, ArgKind)> {
    match id {
        CommandId::GetAppSnapshot => seq![],
        CommandId::RebuildAppSnapshot => seq![],
        CommandId::GetVersion => seq![],
        CommandId::GetSystemdStatus => seq![],
        CommandId::CompareVersions => seq![("a"@, ArgKind::Str), ("b"@, ArgKind::Str)],
        CommandId::SaveGithubProxy => seq![("github_proxy"@, ArgKind::Str)],
        CommandId::SaveProxy => seq![("proxy_url"@, ArgKind::Str), ("proxy_port"@, ArgKind::Str), ("proxy_username"@, ArgKind::Str), ("proxy_password"@, ArgKind::Str)],
        CommandId::SavePypiMirror => seq![("pypi_mirror"@, ArgKind::Str)],
        CommandId::SaveMainlandAcceleration => seq![("mainland_acceleration"@, ArgKind::Bool)],
        CommandId::SaveUseUvForDeps => seq![("use_uv_for_deps"@, ArgKind::Bool)],
        CommandId::SaveCloseToTray => seq![("close_to_tray"@, ArgKind::Bool)],
        CommandId::SaveAutostartMinimizeToTray => seq![("autostart_minimize_to_tray"@, ArgKind::Bool)],
        CommandId::SaveCheckInstanceUpdate => seq![("check_instance_update"@, ArgKind::Bool)],
        CommandId::SavePersistInstanceState => seq![("persist_instance_state"@, ArgKind::Bool)],
        CommandId::SaveIgnoreExternalPath => seq![("ignore_external_path"@, ArgKind::Bool)],
        CommandId::SaveLockCheckExtensionWhitelist => seq![("lock_check_extension_whitelist"@, ArgKind::Bool)],
        CommandId::SaveThemePreference => seq![("theme_preference"@, ArgKind::Typed)],
        CommandId::SaveNodejsMirror => seq![("nodejs_mirror"@, ArgKind::Str)],
        CommandId::SaveNpmRegistry => seq![("npm_registry"@, ArgKind::Str)],
        CommandId::InstallComponent => seq![("component_id"@, ArgKind::Str)],
        CommandId::ReinstallComponent => seq![("component_id"@, ArgKind::Str)],
        CommandId::UninstallComponent => seq![("component_id"@, ArgKind::Str)],
        CommandId::FetchReleases => seq![("force_refresh"@, ArgKind::OptBool)],
        CommandId::FetchLauncherReleaseNotes => seq![("version"@, ArgKind::Str)],
        CommandId::InstallVersion => seq![("release"@, ArgKind::Typed)],
        CommandId::UninstallVersion => seq![("version"@, ArgKind::Str)],
        CommandId::CheckLock => seq![("target"@, ArgKind::Typed), ("instance_id"@, ArgKind::OptStr), ("backup_path"@, ArgKind::OptStr)],
        CommandId::ClearInstanceData => seq![("instance_id"@, ArgKind::Str)],
        CommandId::ClearInstanceVenv => seq![("instance_id"@, ArgKind::Str)],
        CommandId::ClearPycache => seq![("instance_id"@, ArgKind::Str)],
        CommandId::RepairInstance => seq![("instance_id"@, ArgKind::Str), ("preserve_scope"@, ArgKind::Typed)],
        CommandId::RebuildInstanceManifest => seq![],
        CommandId::CreateInstance => seq![("name"@, ArgKind::Str), ("version"@, ArgKind::Str), ("port"@, ArgKind::U16)],
        CommandId::DeleteInstance => seq![("instance_id"@, ArgKind::Str)],
        CommandId::UpdateInstance => seq![("instance_id"@, ArgKind::Str), ("name"@, ArgKind::OptStr), ("version"@, ArgKind::OptStr), ("host"@, ArgKind::OptStr), ("port"@, ArgKind::OptU16)],
        CommandId::StartInstance => seq![("instance_id"@, ArgKind::Str)],
        CommandId::StopInstance => seq![("instance_id"@, ArgKind::Str)],
        CommandId::RestartInstance => seq![("instance_id"@, ArgKind::Str)],
        CommandId::GetInstancePort => seq![("instance_id"@, ArgKind::Str)],
        CommandId::CreateBackup => seq![("instance_id"@, ArgKind::Str)],
        CommandId::RestoreBackup => seq![("backup_path"@, ArgKind::Str)],
        CommandId::DeleteBackup => seq![("backup_path"@, ArgKind::Str)],
        CommandId::SetSystemdEnabled => seq![("enable"@, ArgKind::Bool)],
        CommandId::RestartManager => seq![],
        CommandId::StopManager => seq![],
    }
}

/// The command a request names.
pub fn command_id(cmd: &str) -> (r: Option<CommandId>)
    ensures
        r == command_id_spec(cmd@),
{
    let c = chars_of(cmd);
    if eq_vec(&c, &chars_of("get_app_snapshot")) {
        return Some(CommandId::GetAppSnapshot);
    }
    if eq_vec(&c, &chars_of("rebuild_app_snapshot")) {
        return Some(CommandId::RebuildAppSnapshot);
    }
    if eq_vec(&c, &chars_of("get_version")) {
        return Some(CommandId::GetVersion);
    }
    if eq_vec(&c, &chars_of("get_systemd_status")) {
        return Some(CommandId::GetSystemdStatus);
    }
    if eq_vec(&c, &chars_of("compare_versions")) {
        return Some(CommandId::CompareVersions);
    }
    if eq_vec(&c, &chars_of("save_github_proxy")) {
        return Some(CommandId::SaveGithubProxy);
    }
    if eq_vec(&c, &chars_of("save_proxy")) {
        return Some(CommandId::SaveProxy);
    }
    if eq_vec(&c, &chars_of("save_pypi_mirror")) {
        return Some(CommandId::SavePypiMirror);
    }
    if eq_vec(&c, &chars_of("save_mainland_acceleration")) {
        return Some(CommandId::SaveMainlandAcceleration);
    }
    if eq_vec(&c, &chars_of("save_use_uv_for_deps")) {
        return Some(CommandId::SaveUseUvForDeps);
    }
    if eq_vec(&c, &chars_of("save_close_to_tray")) {
        return Some(CommandId::SaveCloseToTray);
    }
    if eq_vec(&c, &chars_of("save_autostart_minimize_to_tray")) {
        return Some(CommandId::SaveAutostartMinimizeToTray);
    }
    if eq_vec(&c, &chars_of("save_check_instance_update")) {
        return Some(CommandId::SaveCheckInstanceUpdate);
    }
    if eq_vec(&c, &chars_of("save_persist_instance_state")) {
        return Some(CommandId::SavePersistInstanceState);
    }
    if eq_vec(&c, &chars_of("save_ignore_external_path")) {
        return Some(CommandId::SaveIgnoreExternalPath);
    }
    if eq_vec(&c, &chars_of("save_lock_check_extension_whitelist")) {
        return Some(CommandId::SaveLockCheckExtensionWhitelist);
    }
    if eq_vec(&c, &chars_of("save_theme_preference")) {
        return Some(CommandId::SaveThemePreference);
    }
    if eq_vec(&c, &chars_of("save_nodejs_mirror")) {
        return Some(CommandId::SaveNodejsMirror);
    }
    if eq_vec(&c, &chars_of("save_npm_registry")) {
        return Some(CommandId::SaveNpmRegistry);
    }
    if eq_vec(&c, &chars_of("install_component")) {
        return Some(CommandId::InstallComponent);
    }
    if eq_vec(&c, &chars_of("reinstall_component")) {
        return Some(CommandId::ReinstallComponent);
    }
    if eq_vec(&c, &chars_of("uninstall_component")) {
        return Some(CommandId::UninstallComponent);
    }
    if eq_vec(&c, &chars_of("fetch_releases")) {
        return Some(CommandId::FetchReleases);
    }
    if eq_vec(&c, &chars_of("fetch_launcher_release_notes")) {
        return Some(CommandId::FetchLauncherReleaseNotes);
    }
    if eq_vec(&c, &chars_of("install_version")) {
        return Some(CommandId::InstallVersion);
    }
    if eq_vec(&c, &chars_of("uninstall_version")) {
        return Some(CommandId::UninstallVersion);
    }
    if eq_vec(&c, &chars_of("check_lock")) {
        return Some(CommandId::CheckLock);
    }
    if eq_vec(&c, &chars_of("clear_instance_data")) {
        return Some(CommandId::ClearInstanceData);
    }
    if eq_vec(&c, &chars_of("clear_instance_venv")) {
        return Some(CommandId::ClearInstanceVenv);
    }
    if eq_vec(&c, &chars_of("clear_pycache")) {
        return Some(CommandId::ClearPycache);
    }
    if eq_vec(&c, &chars_of("repair_instance")) {
        return Some(CommandId::RepairInstance);
    }
    if eq_vec(&c, &chars_of("rebuild_instance_manifest")) {
        return Some(CommandId::RebuildInstanceManifest);
    }
    if eq_vec(&c, &chars_of("create_instance")) {
        return Some(CommandId::CreateInstance);
    }
    if eq_vec(&c, &chars_of("delete_instance")) {
        return Some(CommandId::DeleteInstance);
    }
    if eq_vec(&c, &chars_of("update_instance")) {
        return Some(CommandId::UpdateInstance);
    }
    if eq_vec(&c, &chars_of("start_instance")) {
        return Some(CommandId::StartInstance);
    }
    if eq_vec(&c, &chars_of("stop_instance")) {
        return Some(CommandId::StopInstance);
    }
    if eq_vec(&c, &chars_of("restart_instance")) {
        return Some(CommandId::RestartInstance);
    }
    if eq_vec(&c, &chars_of("get_instance_port")) {
        return Some(CommandId::GetInstancePort);
    }
    if eq_vec(&c, &chars_of("create_backup")) {
        return Some(CommandId::CreateBackup);
    }
    if eq_vec(&c, &chars_of("restore_backup")) {
        return Some(CommandId::RestoreBackup);
    }
    if eq_vec(&c, &chars_of("delete_backup")) {
        return Some(CommandId::DeleteBackup);
    }
    if eq_vec(&c, &chars_of("set_systemd_enabled")) {
        return Some(CommandId::SetSystemdEnabled);
    }
    if eq_vec(&c, &chars_of("restart_manager")) {
        return Some(CommandId::RestartManager);
    }
    if eq_vec(&c, &chars_of("stop_manager")) {
        return Some(CommandId::StopManager);
    }
    None
}

/// The arguments a command reads.
pub fn signature(id: CommandId) -> (r: Vec<(&'static str, ArgKind)>)
    ensures
        sig_view(r@) == signature_spec(id),
{
    let mut v: Vec<(&'static str, ArgKind)> = Vec::new();
    match id {
        CommandId::GetAppSnapshot => {},
        CommandId::RebuildAppSnapshot => {},
        CommandId::GetVersion => {},
        CommandId::GetSystemdStatus => {},
        CommandId::CompareVersions => {
            v.push(("a", ArgKind::Str));
            v.push(("b", ArgKind::Str));
        },
        CommandId::SaveGithubProxy => {
            v.push(("github_proxy", ArgKind::Str));
        },
        CommandId::SaveProxy => {
            v.push(("proxy_url", ArgKind::Str));
            v.push(("proxy_port", ArgKind::Str));
            v.push(("proxy_username", ArgKind::Str));
            v.push(("proxy_password", ArgKind::Str));
        },
        CommandId::SavePypiMirror => {
            v.push(("pypi_mirror", ArgKind::Str));
        },
        CommandId::SaveMainlandAcceleration => {
            v.push(("mainland_acceleration", ArgKind::Bool));
        },
        CommandId::SaveUseUvForDeps => {
            v.push(("use_uv_for_deps", ArgKind::Bool));
        },
        CommandId::SaveCloseToTray => {
            v.push(("close_to_tray", ArgKind::Bool));
        },
        CommandId::SaveAutostartMinimizeToTray => {
            v.push(("autostart_minimize_to_tray", ArgKind::Bool));
        },
        CommandId::SaveCheckInstanceUpdate => {
            v.push(("check_instance_update", ArgKind::Bool));
        },
        CommandId::SavePersistInstanceState => {
            v.push(("persist_instance_state", ArgKind::Bool));
        },
        CommandId::SaveIgnoreExternalPath => {
            v.push(("ignore_external_path", ArgKind::Bool));
        },
        CommandId::SaveLockCheckExtensionWhitelist => {
            v.push(("lock_check_extension_whitelist", ArgKind::Bool));
        },
        CommandId::SaveThemePreference => {
            v.push(("theme_preference", ArgKind::Typed));
        },
        CommandId::SaveNodejsMirror => {
            v.push(("nodejs_mirror", ArgKind::Str));
        },
        CommandId::SaveNpmRegistry => {
            v.push(("npm_registry", ArgKind::Str));
        },
        CommandId::InstallComponent => {
            v.push(("component_id", ArgKind::Str));
        },
        CommandId::ReinstallComponent => {
            v.push(("component_id", ArgKind::Str));
        },
        CommandId::UninstallComponent => {
            v.push(("component_id", ArgKind::Str));
        },
        CommandId::FetchReleases => {
            v.push(("force_refresh", ArgKind::OptBool));
        },
        CommandId::FetchLauncherReleaseNotes => {
            v.push(("version", ArgKind::Str));
        },
        CommandId::InstallVersion => {
            v.push(("release", ArgKind::Typed));
        },
        CommandId::UninstallVersion => {
            v.push(("version", ArgKind::Str));
        },
        CommandId::CheckLock => {
            v.push(("target", ArgKind::Typed));
            v.push(("instance_id", ArgKind::OptStr));
            v.push(("backup_path", ArgKind::OptStr));
        },
        CommandId::ClearInstanceData => {
            v.push(("instance_id", ArgKind::Str));
        },
        CommandId::ClearInstanceVenv => {
            v.push(("instance_id", ArgKind::Str));
        },
        CommandId::ClearPycache => {
            v.push(("instance_id", ArgKind::Str));
        },
        CommandId::RepairInstance => {
            v.push(("instance_id", ArgKind::Str));
            v.push(("preserve_scope", ArgKind::Typed));
        },
        CommandId::RebuildInstanceManifest => {},
        CommandId::CreateInstance => {
            v.push(("name", ArgKind::Str));
            v.push(("version", ArgKind::Str));
            v.push(("port", ArgKind::U16));
        },
        CommandId::DeleteInstance => {
            v.push(("instance_id", ArgKind::Str));
        },
        CommandId::UpdateInstance => {
            v.push(("instance_id", ArgKind::Str));
            v.push(("name", ArgKind::OptStr));
            v.push(("version", ArgKind::OptStr));
            v.push(("host", ArgKind::OptStr));
            v.push(("port", ArgKind::OptU16));
        },
        CommandId::StartInstance => {
            v.push(("instance_id", ArgKind::Str));
        },
        CommandId::StopInstance => {
            v.push(("instance_id", ArgKind::Str));
        },
        CommandId::RestartInstance => {
            v.push(("instance_id", ArgKind::Str));
        },
        CommandId::GetInstancePort => {
            v.push(("instance_id", ArgKind::Str));
        },
        CommandId::CreateBackup => {
            v.push(("instance_id", ArgKind::Str));
        },
        CommandId::RestoreBackup => {
            v.push(("backup_path", ArgKind::Str));
        },
        CommandId::DeleteBackup => {
            v.push(("backup_path", ArgKind::Str));
        },
        CommandId::SetSystemdEnabled => {
            v.push(("enable", ArgKind::Bool));
        },
        CommandId::RestartManager => {},
        CommandId::StopManager => {},
    }
    assert(sig_view(v@) =~= signature_spec(id));
    v
}

/// A request read: the command named and its arguments, or the error for an
/// unknown command or the first missing argument. The argument names are
/// distinct, as the keys of a JSON object are.
pub fn parse_request(cmd: &str, args: &Vec<(String, ArgValue)>) -> (r: Result<
    (CommandId, Vec<ArgOut>),
    AppError,
>)
    requires
        distinct_keys(key_view(args@)),
    ensures
        match command_id_spec(cmd@) {
            None => r matches Err(e) && e@ == (ErrorKind::Other, detail_payload("未知命令: "@ + cmd@)),
            Some(id) => match read_args_spec(args_view(args@), signature_spec(id)) {
                Ok(outs) => r matches Ok((rid, v)) && rid == id && outs_view(v@) == outs,
                Err(k) => r matches Err(e) && e@ == (ErrorKind::Other, detail_payload("缺少参数: "@ + k)),
            },
        },
{
    match command_id(cmd) {
        None => {
            let m = concat_str("未知命令: ", cmd);
            Err(AppError::other(m.as_str()))
        },
        Some(id) => {
            let sig = signature(id);
            match read_args(args, &sig) {
                Ok(v) => Ok((id, v)),
                Err(e) => Err(e),
            }
        },
    }
}

} // verus!
