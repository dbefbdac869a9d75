use astrbot_launcher::component::{
    build_components_snapshot, build_instance_path_entries, build_nodejs_env_vars,
    component_descriptors, decode_url_path_segment, dedup_paths_keep_order,
    find_mainland_python_asset_for_version, get_python_for_version, get_uv_executable, python_exe_for_version, hex_value,
    is_component_installed, is_nodejs_installed, is_uv_installed, node_download_url,
    push_python_asset_candidate, python_runtime_for_version, requires_python310, sh_shim_script,
    shell_escape, ComponentId,
};
use astrbot_launcher::control::{
    available_port, can_signal_expected_process, check_executable_path_match, clean_proc_exe_link,
    executable_paths_match, is_expected_process_alive, port_bind_error, successful_targets,
    to_pid_t, ExecutablePathMatch,
};
use astrbot_launcher::error::{AppError, ErrorKind};
use astrbot_launcher::text::{parse_u16, parse_u32, u64_to_decimal, IntErrorKind};

fn strs(v: &[&str]) -> Vec<String> {
    v.iter().map(|s| s.to_string()).collect()
}

#[test]
fn component_identity_and_status() {
    assert_eq!(ComponentId::from_str_id("python"), Some(ComponentId::Python));
    assert_eq!(ComponentId::from_str_id("Python"), None);
    assert_eq!(ComponentId::Nodejs.dir_name(), "nodejs");
    assert_eq!(ComponentId::Nodejs.display_name(), "Node.js (LTS)");
    assert_eq!(component_descriptors().len(), 3);
    let snap = build_components_snapshot(false, true, true);
    assert_eq!(snap.components[0].id, "python");
    assert!(!snap.components[0].installed);
    assert!(snap.components[1].installed);
    assert_eq!(snap.components[2].display_name, "uv");
    assert!(is_component_installed(true, true) && !is_component_installed(true, false));
    assert!(is_nodejs_installed(true));
    assert!(!is_uv_installed(true, false));
    assert_eq!(get_uv_executable("/c/uv/uv", false).unwrap_err().message(), "Other: detail=uv 组件未安装");
    assert_eq!(get_uv_executable("/c/uv/uv", true).unwrap(), "/c/uv/uv");
    assert_eq!(get_python_for_version("/d", "v4.5.0", false).unwrap_err().kind(), ErrorKind::PythonNotInstalled);
    assert_eq!(get_python_for_version("/d", "v4.14.6", true).unwrap(), "/d/components/python/py310/bin/python3");
    assert_eq!(get_python_for_version("/d", "v4.15.0", true).unwrap(), "/d/components/python/py312/bin/python3");
    assert_eq!(python_exe_for_version("/d", "v4.20.1"), "/d/components/python/py312/bin/python3");
}

#[test]
fn python_runtime_per_astrbot_version() {
    assert!(requires_python310("v4.14.6"));
    assert!(!requires_python310("v4.14.7"));
    assert!(requires_python310("v3.5.0"));
    assert!(!requires_python310("v4.15"));
    assert!(requires_python310("4"));
    assert!(!requires_python310("latest"));
    assert_eq!(python_runtime_for_version("v4.0.0"), "py310");
    assert_eq!(python_runtime_for_version("v5.0.0"), "py312");
}

#[test]
fn mirror_listing_assets() {
    assert_eq!(hex_value(b'f'), Some(15));
    assert_eq!(hex_value(b'G'), None);
    assert_eq!(decode_url_path_segment("cpython-3.12.9%2B20250317.tar.gz"), "cpython-3.12.9+20250317.tar.gz");
    assert_eq!(decode_url_path_segment("%E4%B8%AD"), "中");
    assert_eq!(decode_url_path_segment("%FF"), "\u{FFFD}");
    assert_eq!(decode_url_path_segment("100%"), "100%");
    let mut names = Vec::new();
    push_python_asset_candidate(&mut names, "\"/dir/cpython-3.10.16%2B2025-x86_64-unknown-linux-gnu-install_only_stripped.tar.gz\"");
    push_python_asset_candidate(&mut names, "cpython-3.10.16+2025-x86_64-unknown-linux-gnu-install_only_stripped.tar.gz");
    push_python_asset_candidate(&mut names, "?C=M;O=D");
    push_python_asset_candidate(&mut names, "readme.txt");
    assert_eq!(names, strs(&["cpython-3.10.16+2025-x86_64-unknown-linux-gnu-install_only_stripped.tar.gz"]));
    let (asset, version) =
        find_mainland_python_asset_for_version(&names, "3.10", "x86_64-unknown-linux-gnu").unwrap();
    assert_eq!(asset, names[0]);
    assert_eq!(version, "3.10.16");
    assert!(find_mainland_python_asset_for_version(&names, "3.12", "x86_64-unknown-linux-gnu").is_err());
}

#[test]
fn nodejs_environment_and_downloads() {
    let vars = build_nodejs_env_vars(true, "/n/prefix", "/n/cache", "/n/prefix/lib/node_modules", Some("https://r/"));
    assert_eq!(vars.len(), 14);
    assert_eq!(vars[0], ("NODE_PATH".to_string(), "/n/prefix/lib/node_modules".to_string()));
    assert_eq!(vars[6], ("NPM_CONFIG_GLOBALCONFIG".to_string(), "/n/prefix/etc/npmrc".to_string()));
    assert_eq!(vars[13], ("npm_config_registry".to_string(), "https://r/".to_string()));
    assert_eq!(build_nodejs_env_vars(true, "/p", "/c", "/m", None).len(), 12);
    assert!(build_nodejs_env_vars(false, "/p", "/c", "/m", Some("https://r/")).is_empty());
    assert_eq!(
        node_download_url("https://nodejs.org/dist", "v20.11.0", "linux", "x64"),
        "https://nodejs.org/dist/v20.11.0/node-v20.11.0-linux-x64.tar.gz"
    );
    assert_eq!(
        node_download_url("https://m", "v20.11.0", "win", "x64"),
        "https://m/v20.11.0/node-v20.11.0-win-x64.zip"
    );
}

#[test]
fn shims_and_instance_path() {
    assert_eq!(shell_escape("it's"), "it'\\''s");
    assert_eq!(dedup_paths_keep_order(&strs(&["/a/b", "/a//b/", "/c", "/a/b"])), strs(&["/a/b", "/c"]));
    let script = sh_shim_script(&vec![("K".to_string(), "v'1".to_string())], &strs(&["/x/bin", "/y"]), "/x/bin/npm");
    assert_eq!(
        script,
        "#!/bin/sh\nexport K='v'\\''1'\nexport PATH='/x/bin':'/y':\"$PATH\"\nexec '/x/bin/npm' \"$@\"\n"
    );
    let entries = build_instance_path_entries("/v/bin", "/c/uv", true, "/c/shims", false, false, &strs(&["/usr/bin", "/v/bin/", "/c/uv"]));
    assert_eq!(entries, strs(&["/v/bin", "/c/uv", "/usr/bin"]));
    let entries = build_instance_path_entries("/v/bin", "/c/uv", false, "/c/shims", true, true, &strs(&["/usr/bin"]));
    assert_eq!(entries, strs(&["/v/bin", "/c/shims"]));
}

#[test]
fn process_identity_checks() {
    assert!(executable_paths_match("/v/bin/python", "/v//bin/python/"));
    assert!(!executable_paths_match("/v/bin/python", "/usr/bin/python"));
    assert_eq!(check_executable_path_match("/a", None), ExecutablePathMatch::Unknown);
    assert_eq!(check_executable_path_match("/a", Some("/b")), ExecutablePathMatch::Mismatch);
    assert!(is_expected_process_alive(true, ExecutablePathMatch::Unknown));
    assert!(!is_expected_process_alive(true, ExecutablePathMatch::Mismatch));
    assert!(!can_signal_expected_process(true, ExecutablePathMatch::Unknown));
    assert!(can_signal_expected_process(true, ExecutablePathMatch::Match));
    assert!(!can_signal_expected_process(false, ExecutablePathMatch::Match));
    assert_eq!(to_pid_t(42), Some(42));
    assert_eq!(to_pid_t(u32::MAX), None);
    assert_eq!(clean_proc_exe_link("/usr/bin/python3.12 (deleted)"), "/usr/bin/python3.12");
    assert_eq!(clean_proc_exe_link("/usr/bin/python3\0junk"), "/usr/bin/python3");
}

#[test]
fn shutdown_targets_and_ports() {
    let targets = vec![(1, "/a".to_string()), (2, "/b".to_string()), (3, "/c".to_string())];
    assert_eq!(successful_targets(&targets, &vec![2]), vec![(1, "/a".to_string()), (3, "/c".to_string())]);
    assert_eq!(available_port(Some(40000)).unwrap(), 40000);
    assert_eq!(available_port(None).unwrap_err().message(), "Process: detail=No available port found");
    assert_eq!(port_bind_error("0.0.0.0", 6185, true, "x").message(), "PortOccupied: port=6185");
    assert_eq!(
        port_bind_error("bad host", 6185, false, "invalid socket address").message(),
        "InvalidHost: detail=bad host: invalid socket address"
    );
}

#[test]
fn numbers_and_errors() {
    assert_eq!(u64_to_decimal(0), "0");
    assert_eq!(u64_to_decimal(18446744073709551615), "18446744073709551615");
    assert_eq!(parse_u16("65535"), Ok(65535));
    assert_eq!(parse_u16("65536"), Err(IntErrorKind::PosOverflow));
    assert_eq!(parse_u16("+7"), Ok(7));
    assert_eq!(parse_u16(""), Err(IntErrorKind::Empty));
    assert_eq!(parse_u16("1a"), Err(IntErrorKind::InvalidDigit));
    assert_eq!(parse_u32("4294967295"), Ok(u32::MAX));
    assert_eq!(AppError::io("").message(), "Io");
    assert_eq!(AppError::instance_not_found("x").code(), 1001);
    assert_eq!(AppError::other("m").code(), 9999);
    assert_eq!(ErrorKind::ProcessLocking.code(), 3006);
    assert_eq!(
        AppError::network_with_url("https://u", "timeout").message(),
        "Network: url=https://u, detail=timeout"
    );
    assert_eq!(AppError::backup_arch_mismatch("aarch64", "x86_64").message(), "Backup: backup_arch=aarch64, current_arch=x86_64");
    assert_eq!(AppError::port_occupied(80).payload().len(), 1);
}
