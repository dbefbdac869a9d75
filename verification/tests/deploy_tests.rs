use astrbot_launcher::deploy::{
    check_webui_archive, is_stale_dashboard_temp_dir, is_stale_preserve_dir,
    kept_when_clearing_core, plan_dependency_sync, preserve_relative_paths, read_trimmed_content,
    repair_copies_aside, repair_keeps_data_in_place, versions_match, webui_install_outcome,
    webui_is_current, webui_version_file, DependencySync, RepairPreserveScope, WebuiAttempt,
};
use astrbot_launcher::error::{AppError, ErrorKind};

#[test]
fn preserved_paths_per_scope() {
    assert!(preserve_relative_paths(RepairPreserveScope::DataDirectory).is_empty());
    assert_eq!(
        preserve_relative_paths(RepairPreserveScope::ConfigAndDataFiles),
        vec!["config", "data_v4.db", "cmd_config.json", "mcp_server.json"]
    );
    assert_eq!(
        preserve_relative_paths(RepairPreserveScope::CoreConfigAndDataFiles),
        vec!["data_v4.db", "cmd_config.json", "mcp_server.json"]
    );
    assert_eq!(preserve_relative_paths(RepairPreserveScope::DatabaseOnly), vec!["data_v4.db"]);
}

#[test]
fn repair_scope_decisions() {
    assert!(!repair_copies_aside(RepairPreserveScope::DataDirectory, true));
    assert!(repair_copies_aside(RepairPreserveScope::DatabaseOnly, true));
    assert!(!repair_copies_aside(RepairPreserveScope::DatabaseOnly, false));
    assert!(repair_keeps_data_in_place(RepairPreserveScope::DataDirectory));
    assert!(!repair_keeps_data_in_place(RepairPreserveScope::ConfigAndDataFiles));
    assert!(kept_when_clearing_core("data"));
    assert!(!kept_when_clearing_core("data2"));
    assert!(is_stale_preserve_dir(".repair-preserve-6f1c"));
    assert!(!is_stale_preserve_dir("repair-preserve"));
    assert!(is_stale_dashboard_temp_dir(".dashboard-dist-42"));
    assert!(!is_stale_dashboard_temp_dir("dist"));
}

#[test]
fn webui_versions_match_loosely() {
    assert!(versions_match(" V4.1.0 ", "v4.1.0"));
    assert!(versions_match("4.1.0", "v4.1.0"));
    assert!(versions_match("vV4.1.0\n", "4.1.0"));
    assert!(!versions_match("4.1.0", "4.1.1"));
    assert!(webui_is_current(Some("v4.1.0"), "4.1.0"));
    assert!(!webui_is_current(None, "4.1.0"));
}

#[test]
fn webui_version_file_location() {
    assert_eq!(webui_version_file("/d/core/data/dist"), "/d/core/data/dist/assets/version");
    assert_eq!(read_trimmed_content(Some("  v4.0.0\n")), Some("v4.0.0".to_string()));
    assert_eq!(read_trimmed_content(Some(" \n ")), None);
    assert_eq!(read_trimmed_content(None), None);
}

#[test]
fn unpacked_webui_must_name_the_target() {
    assert!(check_webui_archive(Some("v4.1.0"), "/t/assets/version", "4.1.0").is_ok());
    let e = check_webui_archive(None, "/t/assets/version", "v4.1.0").unwrap_err();
    assert_eq!(e.kind(), ErrorKind::Io);
    assert_eq!(e.message(), "Io: detail=Downloaded WebUI archive does not contain \"/t/assets/version\"");
    let e = check_webui_archive(Some("v4.0.0"), "/t/assets/version", "v4.1.0").unwrap_err();
    assert_eq!(e.message(), "Io: detail=Downloaded WebUI version v4.0.0 does not match target version v4.1.0");
}

#[test]
fn webui_attempts_end_at_install_or_failed_replacement() {
    let attempts = vec![
        WebuiAttempt::DownloadFailed { url: "https://a/x.zip".to_string(), detail: "timeout".to_string() },
        WebuiAttempt::Installed,
    ];
    assert!(webui_install_outcome(attempts).is_ok());

    let attempts = vec![
        WebuiAttempt::Unusable(AppError::io("bad zip")),
        WebuiAttempt::ReplaceFailed(AppError::io("rename failed")),
        WebuiAttempt::Installed,
    ];
    assert_eq!(webui_install_outcome(attempts).unwrap_err().message(), "Io: detail=rename failed");

    let attempts = vec![
        WebuiAttempt::Unusable(AppError::io("bad zip")),
        WebuiAttempt::DownloadFailed { url: "https://b/x.zip".to_string(), detail: "404".to_string() },
    ];
    assert_eq!(
        webui_install_outcome(attempts).unwrap_err().message(),
        "Network: detail=Failed to download WebUI from https://b/x.zip: 404"
    );

    let attempts = vec![WebuiAttempt::Unusable(AppError::io("bad zip"))];
    assert_eq!(webui_install_outcome(attempts).unwrap_err().message(), "Io: detail=bad zip");

    assert_eq!(
        webui_install_outcome(Vec::new()).unwrap_err().message(),
        "Network: detail=No usable WebUI download URL"
    );
}

#[test]
fn dependency_installer_choice() {
    assert_eq!(plan_dependency_sync(true, true, true), (DependencySync::Uv, false));
    assert_eq!(plan_dependency_sync(true, false, true), (DependencySync::Pip, true));
    assert_eq!(plan_dependency_sync(true, false, false), (DependencySync::Nothing, true));
    assert_eq!(plan_dependency_sync(false, true, true), (DependencySync::Pip, false));
    assert_eq!(plan_dependency_sync(false, false, false), (DependencySync::Nothing, false));
}
