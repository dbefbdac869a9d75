//! Deployment decisions: what a repair keeps, whether the installed WebUI
//! matches the wanted version, how a run of WebUI download attempts ends,
//! and how dependencies are installed.

use vstd::prelude::*;
use vstd::string::*;

use crate::archive_path::strs_view;
use crate::error::{detail_payload, AppError, ErrorKind};
use crate::lexical_path::join_path;
use crate::paths::join;
use crate::text::{
    chars_of, concat_str, path_debug, path_debug_text, eq_ignore_case, eq_ignore_case_vec, starts_with, starts_with_vec,
    string_from_chars, str_to_string, trim, trim_vec,
};

verus! {

/// Which part of an instance's data a repair keeps.
#[derive(Debug, Clone, Copy, PartialEq, Eq, Structural)]
pub enum RepairPreserveScope {
    DataDirectory,
    ConfigAndDataFiles,
    CoreConfigAndDataFiles,
    DatabaseOnly,
}

/// The entries under `data/` that a repair copies aside and puts back.
pub open spec fn preserve_paths_spec(scope: RepairPreserveScope) -> Seq<Seq<char>> {
    match scope {
        RepairPreserveScope::DataDirectory => seq![],
        RepairPreserveScope::ConfigAndDataFiles => seq![
            "config"@,
            "data_v4.db"@,
            "cmd_config.json"@,
            "mcp_server.json"@,
        ],
        RepairPreserveScope::CoreConfigAndDataFiles => seq![
            "data_v4.db"@,
            "cmd_config.json"@,
            "mcp_server.json"@,
        ],
        RepairPreserveScope::DatabaseOnly => seq!["data_v4.db"@],
    }
}

/// The entries under `data/` that a repair with this scope keeps.
pub fn preserve_relative_paths(scope: RepairPreserveScope) -> (r: Vec<String>)
    ensures
        strs_view(r@) == preserve_paths_spec(scope),
{
    let mut v: Vec<String> = Vec::new();
    match scope {
        RepairPreserveScope::DataDirectory => {},
        RepairPreserveScope::ConfigAndDataFiles => {
            v.push(str_to_string("config"));
            v.push(str_to_string("data_v4.db"));
            v.push(str_to_string("cmd_config.json"));
            v.push(str_to_string("mcp_server.json"));
        },
        RepairPreserveScope::CoreConfigAndDataFiles => {
            v.push(str_to_string("data_v4.db"));
            v.push(str_to_string("cmd_config.json"));
            v.push(str_to_string("mcp_server.json"));
        },
        RepairPreserveScope::DatabaseOnly => {
            v.push(str_to_string("data_v4.db"));
        },
    }
    assert(strs_view(v@) =~= preserve_paths_spec(scope));
    v
}

/// Whether a repair copies files aside: every scope but the whole data
/// directory does, when there is a data directory.
pub fn repair_copies_aside(scope: RepairPreserveScope, data_dir_exists: bool) -> (b: bool)
    ensures
        b == (scope != RepairPreserveScope::DataDirectory && data_dir_exists),
{
    !matches!(scope, RepairPreserveScope::DataDirectory) && data_dir_exists
}

/// Whether a repair keeps the data directory in place (and so clears the
/// code directory around it) rather than removing the code directory whole.
pub fn repair_keeps_data_in_place(scope: RepairPreserveScope) -> (b: bool)
    ensures
        b == (scope == RepairPreserveScope::DataDirectory),
{
    matches!(scope, RepairPreserveScope::DataDirectory)
}

/// Whether an entry of the code directory survives clearing it: only `data`.
pub fn kept_when_clearing_core(entry_name: &str) -> (b: bool)
    ensures
        b == (entry_name@ == "data"@),
{
    let n = chars_of(entry_name);
    let d = chars_of("data");
    crate::text::eq_vec(&n, &d)
}

/// Whether a directory entry of an instance is left over from an earlier repair.
pub fn is_stale_preserve_dir(entry_name: &str) -> (b: bool)
    ensures
        b == starts_with(entry_name@, ".repair-preserve-"@),
{
    starts_with_vec(&chars_of(entry_name), &chars_of(".repair-preserve-"))
}

/// Whether a directory under `data/` is left over from an earlier WebUI update.
pub fn is_stale_dashboard_temp_dir(entry_name: &str) -> (b: bool)
    ensures
        b == starts_with(entry_name@, ".dashboard-dist-"@),
{
    starts_with_vec(&chars_of(entry_name), &chars_of(".dashboard-dist-"))
}

/// The text without its leading run of `v` and `V`.
pub open spec fn trim_version_prefix(s: Seq<char>) -> Seq<char>
    decreases s.len(),
{
    if s.len() > 0 && (s[0] == 'v' || s[0] == 'V') {
        trim_version_prefix(s.subrange(1, s.len() as int))
    } else {
        s
    }
}

/// Two version texts name the same version: equal up to ASCII case once
/// trimmed, or once a leading run of `v`/`V` is dropped as well.
pub open spec fn versions_match_spec(installed: Seq<char>, target: Seq<char>) -> bool {
    eq_ignore_case(trim(installed), trim(target)) || eq_ignore_case(
        trim_version_prefix(trim(installed)),
        trim_version_prefix(trim(target)),
    )
}

fn trim_version_prefix_vec(v: &Vec<char>) -> (r: Vec<char>)
    ensures
        r@ == trim_version_prefix(v@),
{
    let n = v.len();
    let mut i: usize = 0;
    assert(v@.subrange(0, n as int) =~= v@);
    while i < n && (v[i] == 'v' || v[i] == 'V')
        invariant
            n == v@.len(),
            i <= n,
            trim_version_prefix(v@) == trim_version_prefix(v@.subrange(i as int, n as int)),
        decreases n - i,
    {
        proof {
            let s = v@.subrange(i as int, n as int);
            assert(s.subrange(1, s.len() as int) =~= v@.subrange(i + 1, n as int));
        }
        i = i + 1;
    }
    crate::text::subvec(v, i, n)
}

/// Whether the installed WebUI version names the target version.
pub fn versions_match(installed: &str, target: &str) -> (b: bool)
    ensures
        b == versions_match_spec(installed@, target@),
{
    let i = trim_vec(&chars_of(installed));
    let t = trim_vec(&chars_of(target));
    eq_ignore_case_vec(&i, &t) || eq_ignore_case_vec(
        &trim_version_prefix_vec(&i),
        &trim_version_prefix_vec(&t),
    )
}

/// The file inside a WebUI build that records its version.
pub fn webui_version_file(dist_dir: &str) -> (r: String)
    ensures
        r@ == join_path(join_path(dist_dir@, "assets"@), "version"@),
{
    let a = join(dist_dir, "assets");
    join(a.as_str(), "version")
}

/// A file's content trimmed, or nothing when it could not be read or is blank.
pub open spec fn trimmed_content_spec(content: Option<Seq<char>>) -> Option<Seq<char>> {
    match content {
        Some(c) => if trim(c).len() == 0 {
            None
        } else {
            Some(trim(c))
        },
        None => None,
    }
}

pub open spec fn opt_view(o: Option<&str>) -> Option<Seq<char>> {
    match o {
        Some(s) => Some(s@),
        None => None,
    }
}

pub open spec fn opt_string_view(o: Option<String>) -> Option<Seq<char>> {
    match o {
        Some(s) => Some(s@),
        None => None,
    }
}

/// The trimmed content of a file, given what reading it returned.
pub fn read_trimmed_content(content: Option<&str>) -> (r: Option<String>)
    ensures
        opt_string_view(r) == trimmed_content_spec(opt_view(content)),
{
    match content {
        Some(c) => {
            let t = trim_vec(&chars_of(c));
            if t.len() == 0 {
                None
            } else {
                Some(string_from_chars(t.as_slice()))
            }
        },
        None => None,
    }
}

/// Whether the WebUI already in place is the wanted version, given the
/// trimmed content of its version file.
pub fn webui_is_current(installed: Option<&str>, version: &str) -> (b: bool)
    ensures
        b == (installed matches Some(i) && versions_match_spec(i@, version@)),
{
    match installed {
        Some(i) => versions_match(i, version),
        None => false,
    }
}

pub open spec fn archive_check_spec(
    installed: Option<Seq<char>>,
    version_file: Seq<char>,
    version: Seq<char>,
    e: AppError,
) -> bool {
    match installed {
        None => e@ == (
            ErrorKind::Io,
            detail_payload(
                "Downloaded WebUI archive does not contain "@ + path_debug(version_file),
            ),
        ),
        Some(i) => e@ == (
            ErrorKind::Io,
            detail_payload(
                "Downloaded WebUI version "@ + i + " does not match target version "@ + version,
            ),
        ),
    }
}

/// Checks an unpacked WebUI archive: its version file (read and trimmed into
/// `installed`) must exist and name the target version.
pub fn check_webui_archive(installed: Option<&str>, version_file: &str, version: &str) -> (r: Result<
    (),
    AppError,
>)
    ensures
        r is Ok <==> (installed matches Some(i) && versions_match_spec(i@, version@)),
        r matches Err(e) ==> archive_check_spec(opt_view(installed), version_file@, version@, e),
{
    match installed {
        None => {
            let d = path_debug_text(version_file);
            let m = concat_str("Downloaded WebUI archive does not contain ", d.as_str());
            Err(AppError::io(m.as_str()))
        },
        Some(i) => {
            if versions_match(i, version) {
                Ok(())
            } else {
                let a = concat_str("Downloaded WebUI version ", i);
                let b = concat_str(a.as_str(), " does not match target version ");
                let m = concat_str(b.as_str(), version);
                Err(AppError::io(m.as_str()))
            }
        },
    }
}

/// What one WebUI download attempt came to.
#[derive(Debug)]
pub enum WebuiAttempt {
    /// The download from `url` failed with `detail`.
    DownloadFailed { url: String, detail: String },
    /// The archive could not be unpacked or holds another version.
    Unusable(AppError),
    /// The new build could not replace the old one; no further URL is tried.
    ReplaceFailed(AppError),
    /// The new build is in place.
    Installed,
}

pub open spec fn is_final_attempt(a: WebuiAttempt) -> bool {
    a is Installed || a is ReplaceFailed
}

pub open spec fn no_webui_url_message() -> Seq<char> {
    "No usable WebUI download URL"@
}

/// `e` is the error that attempt `a` leaves behind.
pub open spec fn attempt_error(a: WebuiAttempt, e: AppError) -> bool {
    match a {
        WebuiAttempt::DownloadFailed { url, detail } => e@ == (
            ErrorKind::Network,
            detail_payload("Failed to download WebUI from "@ + url@ + ": "@ + detail@),
        ),
        WebuiAttempt::Unusable(x) => e == x,
        WebuiAttempt::ReplaceFailed(x) => e == x,
        WebuiAttempt::Installed => false,
    }
}

fn download_failed_error(url: &str, detail: &str) -> (e: AppError)
    ensures
        e@ == (
            ErrorKind::Network,
            detail_payload("Failed to download WebUI from "@ + url@ + ": "@ + detail@),
        ),
{
    let a = concat_str("Failed to download WebUI from ", url);
    let b = concat_str(a.as_str(), ": ");
    let m = concat_str(b.as_str(), detail);
    AppError::network(m.as_str())
}

/// How a run of WebUI download attempts ends: the first attempt that
/// installed or failed to replace decides; without one, the error of the last
/// attempt, or "no usable URL" when there was no attempt.
pub fn webui_install_outcome(attempts: Vec<WebuiAttempt>) -> (r: Result<(), AppError>)
    ensures
        forall|t: int|
            0 <= t < attempts@.len() && is_final_attempt(#[trigger] attempts@[t]) && (forall|j: int|
                0 <= j < t ==> !is_final_attempt(attempts@[j])) ==> match attempts@[t] {
                WebuiAttempt::Installed => r is Ok,
                WebuiAttempt::ReplaceFailed(e) => r == Err::<(), AppError>(e),
                _ => true,
            },
        (forall|j: int| 0 <= j < attempts@.len() ==> !is_final_attempt(#[trigger] attempts@[j]))
            ==> (if attempts@.len() == 0 {
            r matches Err(e) && e@ == (ErrorKind::Network, detail_payload(no_webui_url_message()))
        } else {
            r matches Err(e) && attempt_error(attempts@.last(), e)
        }),
{
    let ghost all = attempts@;
    let mut rest = attempts;
    let mut last_error: Option<AppError> = None;
    let ghost mut i: int = 0;
    while rest.len() > 0
        invariant
            0 <= i <= all.len(),
            all == attempts@,
            rest@ == all.subrange(i, all.len() as int),
            forall|j: int| 0 <= j < i ==> !is_final_attempt(#[trigger] all[j]),
            i == 0 <==> last_error is None,
            i > 0 ==> (last_error matches Some(e) && attempt_error(all[i - 1], e)),
        decreases rest.len(),
    {
        let ghost before = rest@;
        let a = rest.remove(0);
        proof {
            assert(a == before[0]);
            assert(all.subrange(i, all.len() as int)[0] == all[i]);
            assert(rest@ =~= all.subrange(i + 1, all.len() as int));
        }
        match a {
            WebuiAttempt::Installed => {
                assert(is_final_attempt(all[i]));
                return Ok(());
            },
            WebuiAttempt::ReplaceFailed(e) => {
                assert(is_final_attempt(all[i]));
                return Err(e);
            },
            WebuiAttempt::DownloadFailed { url, detail } => {
                last_error = Some(download_failed_error(url.as_str(), detail.as_str()));
            },
            WebuiAttempt::Unusable(e) => {
                last_error = Some(e);
            },
        }
        proof {
            i = i + 1;
        }
    }
    match last_error {
        Some(e) => Err(e),
        None => Err(AppError::network("No usable WebUI download URL")),
    }
}

/// How an instance's dependencies are installed.
#[derive(Debug, Clone, Copy, PartialEq, Eq, Structural)]
pub enum DependencySync {
    /// `uv sync` into the environment.
    Uv,
    /// `pip install -r requirements.txt`.
    Pip,
    /// Nothing to install.
    Nothing,
}

/// The installer to use; the flag says whether the uv setting must be turned
/// off because uv is gone.
pub fn plan_dependency_sync(use_uv: bool, uv_installed: bool, requirements_exist: bool) -> (r: (
    DependencySync,
    bool,
))
    ensures
        r.1 == (use_uv && !uv_installed),
        r.0 == (if use_uv && uv_installed {
            DependencySync::Uv
        } else if requirements_exist {
            DependencySync::Pip
        } else {
            DependencySync::Nothing
        }),
{
    if use_uv && uv_installed {
        (DependencySync::Uv, false)
    } else if requirements_exist {
        (DependencySync::Pip, use_uv)
    } else {
        (DependencySync::Nothing, use_uv)
    }
}

} // verus!
