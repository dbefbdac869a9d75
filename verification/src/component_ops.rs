//! Installing, reinstalling and removing components: the command lines run,
//! the checks after unpacking, and the reports returned to the user.

use vstd::prelude::*;
use vstd::string::*;

use crate::archive_path::strs_view;
use crate::component::{display_name_spec, ComponentId};
use crate::error::{detail_payload, AppError, ErrorKind};
use crate::extract::ArchiveFormat;
use crate::text::{
    chars_of, concat_str, ends_with, ends_with_vec, path_debug, path_debug_text, starts_with,
    starts_with_vec, string_from_chars, str_to_string, subvec, trim, trim_vec,
};

verus! {

/// The arguments of `uv sync` for an instance environment.
pub fn uv_sync_args(venv_python: &str, cache_dir: &str, default_index: &str) -> (r: Vec<String>)
    ensures
        strs_view(r@) == seq![
            "sync"@,
            "-qq"@,
            "--active"@,
            "--no-managed-python"@,
            "--no-python-downloads"@,
            "--inexact"@,
            "--python"@,
            venv_python@,
            "--cache-dir"@,
            cache_dir@,
            "--default-index"@,
            default_index@,
        ],
{
    let mut v: Vec<String> = Vec::new();
    v.push(str_to_string("sync"));
    v.push(str_to_string("-qq"));
    v.push(str_to_string("--active"));
    v.push(str_to_string("--no-managed-python"));
    v.push(str_to_string("--no-python-downloads"));
    v.push(str_to_string("--inexact"));
    v.push(str_to_string("--python"));
    v.push(str_to_string(venv_python));
    v.push(str_to_string("--cache-dir"));
    v.push(str_to_string(cache_dir));
    v.push(str_to_string("--default-index"));
    v.push(str_to_string(default_index));
    assert(strs_view(v@) =~= seq![
        "sync"@,
        "-qq"@,
        "--active"@,
        "--no-managed-python"@,
        "--no-python-downloads"@,
        "--inexact"@,
        "--python"@,
        venv_python@,
        "--cache-dir"@,
        cache_dir@,
        "--default-index"@,
        default_index@,
    ]);
    v
}

/// The arguments given to the environment's Python to install requirements.
pub fn pip_install_args(requirements_path: &str, default_index: &str) -> (r: Vec<String>)
    ensures
        strs_view(r@) == seq![
            "-m"@,
            "pip"@,
            "install"@,
            "-qqq"@,
            "-r"@,
            requirements_path@,
            "-i"@,
            default_index@,
        ],
{
    let mut v: Vec<String> = Vec::new();
    v.push(str_to_string("-m"));
    v.push(str_to_string("pip"));
    v.push(str_to_string("install"));
    v.push(str_to_string("-qqq"));
    v.push(str_to_string("-r"));
    v.push(str_to_string(requirements_path));
    v.push(str_to_string("-i"));
    v.push(str_to_string(default_index));
    assert(strs_view(v@) =~= seq![
        "-m"@,
        "pip"@,
        "install"@,
        "-qqq"@,
        "-r"@,
        requirements_path@,
        "-i"@,
        default_index@,
    ]);
    v
}

/// The arguments given to a runtime's Python to create an environment.
pub fn create_venv_args(venv_dir: &str) -> (r: Vec<String>)
    ensures
        strs_view(r@) == seq!["-m"@, "venv"@, venv_dir@],
{
    let mut v: Vec<String> = Vec::new();
    v.push(str_to_string("-m"));
    v.push(str_to_string("venv"));
    v.push(str_to_string(venv_dir));
    assert(strs_view(v@) =~= seq!["-m"@, "venv"@, venv_dir@]);
    v
}

/// A Python tool that failed, and how its failure reads.
#[derive(Debug, Clone, Copy, PartialEq, Eq, Structural)]
pub enum PythonStep {
    UvSync,
    PipInstall,
    CreateVenv,
}

pub open spec fn step_failure_prefix(step: PythonStep) -> Seq<char> {
    match step {
        PythonStep::UvSync => "uv sync failed: "@,
        PythonStep::PipInstall => "Failed to install requirements: "@,
        PythonStep::CreateVenv => "Failed to create venv: "@,
    }
}

/// The error when a Python tool exits unsuccessfully, with its error output.
pub fn python_step_failure(step: PythonStep, stderr: &str) -> (e: AppError)
    ensures
        e@ == (ErrorKind::Python, detail_payload(step_failure_prefix(step) + stderr@)),
{
    let prefix = match step {
        PythonStep::UvSync => "uv sync failed: ",
        PythonStep::PipInstall => "Failed to install requirements: ",
        PythonStep::CreateVenv => "Failed to create venv: ",
    };
    let m = concat_str(prefix, stderr);
    AppError::python(m.as_str())
}

/// What creating an environment does with what is already there.
#[derive(Debug, Clone, Copy, PartialEq, Eq, Structural)]
pub enum VenvPlan {
    /// A working environment exists.
    Keep,
    /// The directory exists without its Python: remove it, then create.
    Recreate,
    /// Create it.
    Create,
}

pub fn venv_plan(venv_dir_exists: bool, venv_python_exists: bool) -> (r: VenvPlan)
    ensures
        r == (if venv_dir_exists && venv_python_exists {
            VenvPlan::Keep
        } else if venv_dir_exists {
            VenvPlan::Recreate
        } else {
            VenvPlan::Create
        }),
{
    if venv_dir_exists && venv_python_exists {
        VenvPlan::Keep
    } else if venv_dir_exists {
        VenvPlan::Recreate
    } else {
        VenvPlan::Create
    }
}

/// The version `uv --version` reports: its trimmed output without a leading
/// `uv `, or `latest` when the command failed or printed nothing.
pub open spec fn uv_version_spec(success: bool, stdout: Seq<char>) -> Seq<char> {
    if !success || trim(stdout).len() == 0 {
        "latest"@
    } else if starts_with(trim(stdout), "uv "@) {
        trim(trim(stdout).skip(3))
    } else {
        trim(stdout)
    }
}

pub fn uv_version_from_output(success: bool, stdout: &str) -> (r: String)
    ensures
        r@ == uv_version_spec(success, stdout@),
{
    let t = trim_vec(&chars_of(stdout));
    if !success || t.len() == 0 {
        return str_to_string("latest");
    }
    proof {
        reveal_strlit("uv ");
    }
    if starts_with_vec(&t, &chars_of("uv ")) {
        let rest = subvec(&t, 3, t.len());
        assert(rest@ =~= t@.skip(3));
        let r = trim_vec(&rest);
        string_from_chars(r.as_slice())
    } else {
        string_from_chars(t.as_slice())
    }
}

/// The format of a downloaded archive, by its name: zip or gzipped tar.
pub fn archive_format_for(name: &str) -> (r: ArchiveFormat)
    ensures
        r == (if ends_with(name@, ".zip"@) {
            ArchiveFormat::Zip
        } else {
            ArchiveFormat::TarGz
        }),
{
    if ends_with_vec(&chars_of(name), &chars_of(".zip")) {
        ArchiveFormat::Zip
    } else {
        ArchiveFormat::TarGz
    }
}

/// Where uv is downloaded from when the settings cannot be read.
pub fn default_uv_download_url(archive_name: &str) -> (r: String)
    ensures
        r@ == "https://github.com/astral-sh/uv/releases/latest/download/"@ + archive_name@,
{
    concat_str("https://github.com/astral-sh/uv/releases/latest/download/", archive_name)
}

pub open spec fn no_lts_message() -> Seq<char> {
    "No LTS version found in Node.js version index"@
}

/// The first release of the Node.js version index that is an LTS release.
pub fn first_lts_release(lts_flags: &Vec<bool>) -> (r: Result<usize, AppError>)
    ensures
        match r {
            Ok(i) => i < lts_flags@.len() && lts_flags@[i as int] && forall|j: int|
                0 <= j < i ==> !lts_flags@[j],
            Err(e) => (forall|j: int| 0 <= j < lts_flags@.len() ==> !lts_flags@[j]) && e@ == (
                ErrorKind::Io,
                detail_payload(no_lts_message()),
            ),
        },
{
    let mut i: usize = 0;
    while i < lts_flags.len()
        invariant
            i <= lts_flags@.len(),
            forall|j: int| 0 <= j < i ==> !lts_flags@[j],
        decreases lts_flags.len() - i,
    {
        if lts_flags[i] {
            return Ok(i);
        }
        i = i + 1;
    }
    Err(AppError::io("No LTS version found in Node.js version index"))
}

/// The file the Node.js archive is saved as, and its format: a zip on
/// Windows, a gzipped tar elsewhere.
pub fn node_archive(is_windows: bool) -> (r: (&'static str, ArchiveFormat))
    ensures
        r.0@ == (if is_windows {
            "node.zip"@
        } else {
            "node.tar.gz"@
        }),
        r.1 == (if is_windows {
            ArchiveFormat::Zip
        } else {
            ArchiveFormat::TarGz
        }),
{
    if is_windows {
        ("node.zip", ArchiveFormat::Zip)
    } else {
        ("node.tar.gz", ArchiveFormat::TarGz)
    }
}

/// An executable that must exist once a component is unpacked.
#[derive(Debug, Clone, Copy, PartialEq, Eq, Structural)]
pub enum UnpackedExecutable {
    Node,
    Npm,
    Npx,
    Uv,
    Uvx,
    Python,
}

pub open spec fn missing_executable_message(exe: UnpackedExecutable, version: Seq<char>, path: Seq<char>) -> Seq<
    char,
> {
    match exe {
        UnpackedExecutable::Node => "Node.js "@ + version + " extracted but node executable not found: "@
            + path_debug(path),
        UnpackedExecutable::Npm => "Node.js "@ + version + " extracted but npm executable not found: "@
            + path_debug(path),
        UnpackedExecutable::Npx => "Node.js "@ + version + " extracted but npx executable not found: "@
            + path_debug(path),
        UnpackedExecutable::Uv => "uv extracted but executable not found: "@ + path_debug(path),
        UnpackedExecutable::Uvx => "uv extracted but uvx executable not found: "@ + path_debug(path),
        UnpackedExecutable::Python => "Python runtime extracted but executable not found: "@
            + path_debug(path),
    }
}

/// An unpacked component must contain its executable; the Node.js messages
/// name the release `version`.
pub fn check_unpacked_executable(
    exe: UnpackedExecutable,
    version: &str,
    path: &str,
    present: bool,
) -> (r: Result<(), AppError>)
    ensures
        r is Ok <==> present,
        r matches Err(e) ==> e@ == (
            if exe == UnpackedExecutable::Python {
                ErrorKind::Python
            } else {
                ErrorKind::Io
            },
            detail_payload(missing_executable_message(exe, version@, path@)),
        ),
{
    if present {
        return Ok(());
    }
    let d = path_debug_text(path);
    match exe {
        UnpackedExecutable::Node | UnpackedExecutable::Npm | UnpackedExecutable::Npx => {
            let a = concat_str("Node.js ", version);
            let tail = match exe {
                UnpackedExecutable::Node => " extracted but node executable not found: ",
                UnpackedExecutable::Npm => " extracted but npm executable not found: ",
                _ => " extracted but npx executable not found: ",
            };
            let b = concat_str(a.as_str(), tail);
            let m = concat_str(b.as_str(), d.as_str());
            Err(AppError::io(m.as_str()))
        },
        UnpackedExecutable::Uv => {
            let m = concat_str("uv extracted but executable not found: ", d.as_str());
            Err(AppError::io(m.as_str()))
        },
        UnpackedExecutable::Uvx => {
            let m = concat_str("uv extracted but uvx executable not found: ", d.as_str());
            Err(AppError::io(m.as_str()))
        },
        UnpackedExecutable::Python => {
            let m = concat_str("Python runtime extracted but executable not found: ", d.as_str());
            Err(AppError::python(m.as_str()))
        },
    }
}

/// The texts joined with `, `.
pub open spec fn comma_joined(v: Seq<Seq<char>>) -> Seq<char>
    decreases v.len(),
{
    if v.len() == 0 {
        Seq::empty()
    } else if v.len() == 1 {
        v[0]
    } else {
        comma_joined(v.drop_last()) + ", "@ + v.last()
    }
}

pub(crate) fn join_comma(v: &Vec<String>) -> (r: String)
    ensures
        r@ == comma_joined(strs_view(v@)),
{
    let ghost sv = strs_view(v@);
    let mut r = String::new();
    proof {
        reveal_strlit("");
    }
    let mut i: usize = 0;
    assert(sv.take(0) =~= Seq::<Seq<char>>::empty());
    while i < v.len()
        invariant
            i <= v@.len(),
            sv == strs_view(v@),
            r@ == comma_joined(sv.take(i as int)),
        decreases v.len() - i,
    {
        proof {
            assert(sv.take(i + 1).drop_last() =~= sv.take(i as int));
            assert(sv[i as int] == v@[i as int]@);
        }
        if i > 0 {
            r.append(", ");
        }
        r.append(v[i].as_str());
        proof {
            if i == 0 {
                assert(r@ =~= comma_joined(sv.take(1)));
            } else {
                assert(r@ =~= comma_joined(sv.take(i + 1)));
            }
        }
        i = i + 1;
    }
    assert(sv.take(i as int) =~= sv);
    r
}

/// What installing reports: the component is already there (no versions
/// installed), or the versions it installed.
pub open spec fn install_message_spec(id: ComponentId, versions: Seq<Seq<char>>) -> Seq<char> {
    if versions.len() == 0 {
        display_name_spec(id) + " 已安装"@
    } else {
        "已安装 "@ + display_name_spec(id) + ": "@ + comma_joined(versions)
    }
}

pub fn install_message(id: ComponentId, versions: &Vec<String>) -> (r: String)
    ensures
        r@ == install_message_spec(id, strs_view(versions@)),
{
    if versions.len() == 0 {
        concat_str(id.display_name(), " 已安装")
    } else {
        let a = concat_str("已安装 ", id.display_name());
        let b = concat_str(a.as_str(), ": ");
        concat_str(b.as_str(), join_comma(versions).as_str())
    }
}

/// What reinstalling reports: the versions installed anew.
pub fn reinstall_message(id: ComponentId, versions: &Vec<String>) -> (r: String)
    ensures
        r@ == "已重新安装 "@ + display_name_spec(id) + ": "@ + comma_joined(strs_view(versions@)),
{
    let a = concat_str("已重新安装 ", id.display_name());
    let b = concat_str(a.as_str(), ": ");
    concat_str(b.as_str(), join_comma(versions).as_str())
}

/// What uninstalling reports: that nothing was installed, or what was
/// removed (for Python, the runtime directories by name).
pub open spec fn uninstall_message_spec(id: ComponentId, removed: Seq<Seq<char>>) -> Seq<char> {
    if removed.len() == 0 {
        display_name_spec(id) + " 组件未安装"@
    } else if id == ComponentId::Python {
        "已卸载 Python: "@ + comma_joined(removed)
    } else {
        "已卸载 "@ + display_name_spec(id)
    }
}

/// The report of uninstalling a component, given what was removed: the
/// Python runtime directories by name, or the one component directory.
pub fn uninstall_component(id: ComponentId, removed: &Vec<String>) -> (r: String)
    ensures
        r@ == uninstall_message_spec(id, strs_view(removed@)),
{
    if removed.len() == 0 {
        concat_str(id.display_name(), " 组件未安装")
    } else if matches!(id, ComponentId::Python) {
        concat_str("已卸载 Python: ", join_comma(removed).as_str())
    } else {
        concat_str("已卸载 ", id.display_name())
    }
}

} // verus!
