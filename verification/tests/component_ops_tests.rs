use astrbot_launcher::component::ComponentId;
use astrbot_launcher::component_ops::{
    archive_format_for, check_unpacked_executable, create_venv_args, default_uv_download_url,
    first_lts_release, install_message, node_archive, pip_install_args, python_step_failure,
    reinstall_message, uninstall_component, uv_sync_args, uv_version_from_output, venv_plan,
    PythonStep, UnpackedExecutable, VenvPlan,
};
use astrbot_launcher::error::ErrorKind;
use astrbot_launcher::extract::ArchiveFormat;

fn strings(v: &[&str]) -> Vec<String> {
    v.iter().map(|s| s.to_string()).collect()
}

#[test]
fn tool_command_lines() {
    assert_eq!(
        uv_sync_args("/v/bin/python", "/c/uv", "https://pypi.org/simple"),
        strings(&[
            "sync", "-qq", "--active", "--no-managed-python", "--no-python-downloads", "--inexact",
            "--python", "/v/bin/python", "--cache-dir", "/c/uv", "--default-index", "https://pypi.org/simple",
        ])
    );
    assert_eq!(
        pip_install_args("/core/requirements.txt", "https://m/simple"),
        strings(&["-m", "pip", "install", "-qqq", "-r", "/core/requirements.txt", "-i", "https://m/simple"])
    );
    assert_eq!(create_venv_args("/i/venv"), strings(&["-m", "venv", "/i/venv"]));
}

#[test]
fn tool_failures_read_as_python_errors() {
    let e = python_step_failure(PythonStep::UvSync, "resolution failed");
    assert_eq!(e.kind(), ErrorKind::Python);
    assert_eq!(e.message(), "Python: detail=uv sync failed: resolution failed");
    assert_eq!(
        python_step_failure(PythonStep::PipInstall, "x").message(),
        "Python: detail=Failed to install requirements: x"
    );
    assert_eq!(python_step_failure(PythonStep::CreateVenv, "y").message(), "Python: detail=Failed to create venv: y");
}

#[test]
fn environment_creation_plan() {
    assert_eq!(venv_plan(true, true), VenvPlan::Keep);
    assert_eq!(venv_plan(true, false), VenvPlan::Recreate);
    assert_eq!(venv_plan(false, false), VenvPlan::Create);
}

#[test]
fn uv_version_text() {
    assert_eq!(uv_version_from_output(true, "uv 0.5.1 (f5fb7f9 2024-11-08)\n"), "0.5.1 (f5fb7f9 2024-11-08)");
    assert_eq!(uv_version_from_output(true, "0.4.0"), "0.4.0");
    assert_eq!(uv_version_from_output(true, "   \n"), "latest");
    assert_eq!(uv_version_from_output(false, "uv 0.5.1"), "latest");
}

#[test]
fn archive_and_download_choices() {
    assert_eq!(archive_format_for("uv-x86_64-unknown-linux-gnu.tar.gz"), ArchiveFormat::TarGz);
    assert_eq!(archive_format_for("uv-x86_64-pc-windows-msvc.zip"), ArchiveFormat::Zip);
    assert_eq!(
        default_uv_download_url("uv-x86_64-unknown-linux-gnu.tar.gz"),
        "https://github.com/astral-sh/uv/releases/latest/download/uv-x86_64-unknown-linux-gnu.tar.gz"
    );
    assert_eq!(node_archive(false), ("node.tar.gz", ArchiveFormat::TarGz));
    assert_eq!(node_archive(true), ("node.zip", ArchiveFormat::Zip));
}

#[test]
fn first_lts_release_is_picked() {
    assert_eq!(first_lts_release(&vec![false, true, true]).unwrap(), 1);
    let e = first_lts_release(&vec![false, false]).unwrap_err();
    assert_eq!(e.message(), "Io: detail=No LTS version found in Node.js version index");
}

#[test]
fn unpacked_components_need_their_executables() {
    assert!(check_unpacked_executable(UnpackedExecutable::Node, "v20.1.0", "/c/nodejs/bin/node", true).is_ok());
    let e = check_unpacked_executable(UnpackedExecutable::Npm, "v20.1.0", "/c/nodejs/bin/npm", false).unwrap_err();
    assert_eq!(e.message(), "Io: detail=Node.js v20.1.0 extracted but npm executable not found: \"/c/nodejs/bin/npm\"");
    let e = check_unpacked_executable(UnpackedExecutable::Uvx, "", "/c/uv/uvx", false).unwrap_err();
    assert_eq!(e.message(), "Io: detail=uv extracted but uvx executable not found: \"/c/uv/uvx\"");
    let e = check_unpacked_executable(UnpackedExecutable::Python, "", "/p/bin/python3", false).unwrap_err();
    assert_eq!(e.kind(), ErrorKind::Python);
    assert_eq!(e.message(), "Python: detail=Python runtime extracted but executable not found: \"/p/bin/python3\"");
}

#[test]
fn component_reports() {
    assert_eq!(install_message(ComponentId::Python, &Vec::new()), "Python 已安装");
    assert_eq!(install_message(ComponentId::Python, &strings(&["3.10.16", "3.12.9"])), "已安装 Python: 3.10.16, 3.12.9");
    assert_eq!(install_message(ComponentId::UV, &strings(&["0.5.1"])), "已安装 uv: 0.5.1");
    assert_eq!(install_message(ComponentId::Nodejs, &Vec::new()), "Node.js (LTS) 已安装");
    assert_eq!(reinstall_message(ComponentId::Nodejs, &strings(&["v20.1.0"])), "已重新安装 Node.js (LTS): v20.1.0");
    assert_eq!(uninstall_component(ComponentId::Python, &strings(&["py310", "py312"])), "已卸载 Python: py310, py312");
    assert_eq!(uninstall_component(ComponentId::Python, &Vec::new()), "Python 组件未安装");
    assert_eq!(uninstall_component(ComponentId::UV, &Vec::new()), "uv 组件未安装");
    assert_eq!(uninstall_component(ComponentId::Nodejs, &strings(&["nodejs"])), "已卸载 Node.js (LTS)");
}
