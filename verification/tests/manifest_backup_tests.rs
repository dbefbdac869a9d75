use astrbot_launcher::backup::{
    backup_file_name, backup_metadata_for, check_restore_target, corrupted_backup_info,
    is_auto_backup_candidate, is_backup_archive_name, is_pending_auto_backup, is_tar_gz,
    path_contains_pycache, pending_backup_error, route_backup_entry, route_data_entry,
    select_latest_auto_backup, sort_backups_newest_first, str_less, BackupInfo, BackupMetadata,
    backup_walk_action, removes_backup_after_restore, BackupWalkAction,
};
use astrbot_launcher::error::ErrorKind;
use astrbot_launcher::manifest::{
    default_instance_name, default_true, installed_version_from_file, looks_like_instance_dir,
    merge_manifest, normalize_instance_host, pyproject_version_label, AppManifest, InstalledVersion,
    InstanceConfig, LegacyAppConfig,
};

fn inst(name: &str, version: &str) -> InstanceConfig {
    InstanceConfig {
        name: name.to_string(),
        version: version.to_string(),
        host: "0.0.0.0".to_string(),
        port: 6185,
        created_at: "2024-01-01".to_string(),
    }
}

fn iv(v: &str) -> InstalledVersion {
    InstalledVersion { version: v.to_string(), zip_path: format!("/d/versions/{v}.zip") }
}

fn manifest() -> AppManifest {
    let mut m = AppManifest::new();
    m.register_version(iv("v4.0.0"));
    m.register_version(iv("v4.1.0"));
    m.insert_instance("a", inst("Ant", "v4.0.0"));
    m
}

fn metadata(id: &str, version: &str, created: &str, auto: bool) -> BackupMetadata {
    BackupMetadata {
        created_at: created.to_string(),
        instance_name: "Ant".to_string(),
        instance_id: id.to_string(),
        version: version.to_string(),
        includes_venv: false,
        includes_data: true,
        arch_target: String::new(),
        auto_generated: auto,
    }
}

fn info(file: &str, m: BackupMetadata) -> BackupInfo {
    BackupInfo { filename: file.to_string(), path: format!("/d/backups/{file}"), metadata: m, corrupted: false, parse_error: None }
}

#[test]
fn instances_are_keyed_by_id() {
    let mut m = manifest();
    assert_eq!(m.instance("a").unwrap().name, "Ant");
    m.insert_instance("a", inst("Ant2", "v4.1.0"));
    assert_eq!(m.instance_entries().len(), 1);
    assert_eq!(m.instance("a").unwrap().name, "Ant2");
    assert_eq!(m.remove_instance("a").unwrap().name, "Ant2");
    let e = m.remove_instance("a").unwrap_err();
    assert_eq!(e.message(), "InstanceNotFound: id=a");
    assert!(m.instance("a").is_none());
}

#[test]
fn versions_register_once_and_are_protected_while_used() {
    let mut m = manifest();
    m.register_version(InstalledVersion { version: "v4.0.0".to_string(), zip_path: "/new.zip".to_string() });
    let names: Vec<(&str, &str)> = m.installed_versions.iter().map(|v| (v.version.as_str(), v.zip_path.as_str())).collect();
    assert_eq!(names, vec![("v4.1.0", "/d/versions/v4.1.0.zip"), ("v4.0.0", "/new.zip")]);
    assert!(m.ensure_version_installed("v4.1.0").is_ok());
    assert_eq!(m.ensure_version_installed("v9").unwrap_err().message(), "VersionNotFound: version=v9");
    let e = m.unregister_version("v4.0.0").unwrap_err();
    assert_eq!(e.kind(), ErrorKind::VersionInUse);
    assert_eq!(e.message(), "VersionInUse: version=v4.0.0, instance=Ant");
    assert!(m.unregister_version("v4.1.0").is_ok());
    assert_eq!(m.installed_versions.len(), 1);
}

#[test]
fn instance_updates_and_restores() {
    let mut m = manifest();
    m.update_instance_config("a", Some("New"), None, Some("   "), Some(7000), "127.0.0.1").unwrap();
    let c = m.instance("a").unwrap();
    assert_eq!(c.name, "New");
    assert_eq!(c.version, "v4.0.0");
    assert_eq!(c.host, "127.0.0.1");
    assert_eq!(c.port, 7000);
    assert_eq!(m.update_instance_config("zz", None, None, None, None, "h").unwrap_err().kind(), ErrorKind::InstanceNotFound);
    m.apply_restored_version("a", "v4.1.0");
    assert_eq!(m.instance("a").unwrap().version, "v4.1.0");
    assert_eq!(m.instance("a").unwrap().name, "New");
    assert_eq!(normalize_instance_host(" 10.0.0.1 ", "0.0.0.0"), "10.0.0.1");
}

#[test]
fn merging_keeps_target_entries() {
    let mut t = manifest();
    t.tracked_instances_snapshot = vec!["a".to_string()];
    let mut s = AppManifest::new();
    s.insert_instance("a", inst("Other", "v1"));
    s.insert_instance("b", inst("Bee", "v1"));
    s.register_version(iv("v4.0.0"));
    s.register_version(iv("v5.0.0"));
    s.tracked_instances_snapshot = vec!["b".to_string(), "a".to_string()];
    merge_manifest(&mut t, &s);
    assert_eq!(t.instance("a").unwrap().name, "Ant");
    assert_eq!(t.instance("b").unwrap().name, "Bee");
    let names: Vec<&str> = t.installed_versions.iter().map(|v| v.version.as_str()).collect();
    assert_eq!(names, vec!["v4.0.0", "v4.1.0", "v5.0.0"]);
    assert_eq!(t.tracked_instances_snapshot, vec!["a".to_string(), "b".to_string()]);
    let before: Vec<String> = t.installed_versions.iter().map(|v| v.version.clone()).collect();
    let copy = AppManifest {
        instances: Vec::new(),
        installed_versions: t.installed_versions.iter().map(|v| iv(&v.version)).collect(),
        tracked_instances_snapshot: t.tracked_instances_snapshot.clone(),
    };
    merge_manifest(&mut t, &copy);
    let after: Vec<String> = t.installed_versions.iter().map(|v| v.version.clone()).collect();
    assert_eq!(before, after);
}

#[test]
fn legacy_configuration_split() {
    let legacy = LegacyAppConfig {
        mainland_acceleration: true,
        instances: vec![("a".to_string(), inst("Ant", "v1"))],
        installed_versions: vec![iv("v1")],
        github_proxy: "gp".to_string(),
        proxy_url: String::new(),
        proxy_port: String::new(),
        proxy_username: String::new(),
        proxy_password: String::new(),
        pypi_mirror: String::new(),
        nodejs_mirror: String::new(),
        npm_registry: String::new(),
        use_uv_for_deps: true,
        close_to_tray: default_true(),
        autostart_minimize_to_tray: false,
        check_instance_update: default_true(),
        persist_instance_state: true,
        ignore_external_path: false,
        tracked_instances_snapshot: vec!["a".to_string()],
        theme_preference: "dark".to_string(),
    };
    let c = LegacyAppConfig { ..legacy_copy(&legacy) }.into_config();
    assert!(c.mainland_acceleration && c.use_uv_for_deps && c.close_to_tray && c.persist_instance_state);
    assert!(!c.lock_check_extension_whitelist);
    assert_eq!(c.github_proxy, "gp");
    assert_eq!(c.theme_preference, "dark");
    let m = legacy.into_manifest();
    assert_eq!(m.instances.len(), 1);
    assert_eq!(m.tracked_instances_snapshot, vec!["a".to_string()]);
}

fn legacy_copy(l: &LegacyAppConfig) -> LegacyAppConfig {
    LegacyAppConfig {
        mainland_acceleration: l.mainland_acceleration,
        instances: Vec::new(),
        installed_versions: Vec::new(),
        github_proxy: l.github_proxy.clone(),
        proxy_url: l.proxy_url.clone(),
        proxy_port: l.proxy_port.clone(),
        proxy_username: l.proxy_username.clone(),
        proxy_password: l.proxy_password.clone(),
        pypi_mirror: l.pypi_mirror.clone(),
        nodejs_mirror: l.nodejs_mirror.clone(),
        npm_registry: l.npm_registry.clone(),
        use_uv_for_deps: l.use_uv_for_deps,
        close_to_tray: l.close_to_tray,
        autostart_minimize_to_tray: l.autostart_minimize_to_tray,
        check_instance_update: l.check_instance_update,
        persist_instance_state: l.persist_instance_state,
        ignore_external_path: l.ignore_external_path,
        tracked_instances_snapshot: Vec::new(),
        theme_preference: l.theme_preference.clone(),
    }
}

#[test]
fn rebuilt_instance_labels() {
    assert_eq!(default_instance_name("123e4567-e89b"), "Rev 123e4567");
    assert_eq!(default_instance_name("abc"), "Rev abc");
    assert_eq!(pyproject_version_label(" 4.1.0 "), Some("v4.1.0".to_string()));
    assert_eq!(pyproject_version_label("v4.1.0"), Some("v4.1.0".to_string()));
    assert_eq!(pyproject_version_label("  "), None);
    let v = installed_version_from_file("v4.1.0.zip", "/d/versions/v4.1.0.zip").unwrap();
    assert_eq!(v.version, "v4.1.0");
    assert!(installed_version_from_file("v4.1.0.tar.gz", "/x").is_none());
    assert!(looks_like_instance_dir(false, false, true, false, false));
    assert!(!looks_like_instance_dir(false, false, false, false, false));
}

#[test]
fn backup_names_and_routes() {
    assert!(is_tar_gz("/b/x.tar.gz"));
    assert!(!is_tar_gz("/b/x.zip"));
    assert!(path_contains_pycache("data/plugins/__pycache__/m.pyc"));
    assert!(!path_contains_pycache("data/plugins/m.py"));
    assert_eq!(backup_file_name("id1", "20240101_120000", false), "id1-20240101_120000.zip");
    assert_eq!(backup_file_name("id1", "20240101_120000", true), "id1-20240101_120000-auto.zip");
    let rel = |v: &[&str]| v.iter().map(|s| s.to_string()).collect::<Vec<String>>();
    assert_eq!(route_backup_entry(&rel(&["data", "config.json"]), "/i/core"), Some("/i/core/data/config.json".to_string()));
    assert_eq!(route_backup_entry(&rel(&["backup.toml"]), "/i/core"), None);
    assert_eq!(route_backup_entry(&rel(&["venv", "bin", "python"]), "/i/core"), None);
    assert_eq!(route_backup_entry(&rel(&["data", "__pycache__", "x.pyc"]), "/i/core"), None);
    assert_eq!(route_backup_entry(&rel(&["other.txt"]), "/i/core"), None);
    assert_eq!(route_data_entry(&rel(&["data", "a"]), "/c"), Some("/c/data/a".to_string()));
    assert_eq!(route_data_entry(&rel(&["backup.toml"]), "/c"), None);
    assert!(is_backup_archive_name("x.zip") && is_backup_archive_name("x.tar.gz"));
    assert!(!is_backup_archive_name("x.toml"));
    assert!(is_auto_backup_candidate("id1-20240101-auto.zip", "id1"));
    assert!(!is_auto_backup_candidate("id1-20240101.zip", "id1"));
    assert!(!is_auto_backup_candidate("id2-20240101-auto.zip", "id1"));
}

#[test]
fn backup_records() {
    let m = backup_metadata_for(&inst("Ant", "v4.0.0"), "id1", "2024-05-01T00:00:00Z", true);
    assert_eq!(m.instance_name, "Ant");
    assert_eq!(m.version, "v4.0.0");
    assert!(m.includes_data && !m.includes_venv && m.auto_generated);
    assert!(m.arch_target.is_empty());
    let c = corrupted_backup_info("x.zip", "/b/x.zip", "bad toml");
    assert!(c.corrupted);
    assert_eq!(c.parse_error, Some("bad toml".to_string()));
    assert_eq!(c.metadata.instance_name, "(损坏备份)");
    assert!(is_pending_auto_backup(&metadata("id1", "v1", "t", true), "id1"));
    assert!(!is_pending_auto_backup(&metadata("id1", "v1", "t", false), "id1"));
    assert!(!is_pending_auto_backup(&metadata("id2", "v1", "t", true), "id1"));
}

#[test]
fn latest_pending_backup() {
    let a = info("id1-a-auto.zip", metadata("id1", "v1", "2024-01-02", true));
    let b = info("id1-b-auto.zip", metadata("id1", "v1", "2024-01-01", true));
    let c = info("id1-c-auto.zip", metadata("id1", "v1", "2024-01-03", true));
    let picked = select_latest_auto_backup(vec![(a, 10), (b, 20), (c, 20)]).unwrap();
    assert_eq!(picked.filename, "id1-c-auto.zip");
    assert!(select_latest_auto_backup(Vec::new()).is_none());
    let e = pending_backup_error(&info("f.zip", metadata("id1", "v1", "t", true)), true);
    assert_eq!(
        e.message(),
        "Backup: detail=检测到未处理的自动备份 f.zip（/d/backups/f.zip）。这通常表示上次升降级的数据还原失败。请先在“备份管理”中手动恢复该备份并确认数据，再继续升降级。"
    );
    let e = pending_backup_error(&info("f.zip", metadata("id1", "v1", "t", true)), false);
    assert!(e.message().ends_with("请先在\u{22}备份管理\u{22}中手动恢复该备份并确认数据，再启动实例。"));
}

#[test]
fn restore_preconditions() {
    let m = manifest();
    assert!(check_restore_target(&m, &metadata("a", "v4.1.0", "t", false)).is_ok());
    assert_eq!(check_restore_target(&m, &metadata("a", "v9", "t", false)).unwrap_err().message(), "VersionNotFound: version=v9");
    assert_eq!(check_restore_target(&m, &metadata("zz", "v4.1.0", "t", false)).unwrap_err().message(), "InstanceNotFound: id=zz");
}

#[test]
fn backups_listed_newest_first() {
    assert!(str_less("2024-01-01", "2024-01-02"));
    assert!(!str_less("b", "a"));
    assert!(str_less("", "a"));
    let v = vec![
        info("1.zip", metadata("x", "v", "2024-01-01", false)),
        info("3.zip", metadata("x", "v", "2024-03-01", false)),
        info("2.zip", metadata("x", "v", "2024-02-01", false)),
        info("bad.zip", metadata("", "", "", false)),
    ];
    let sorted = sort_backups_newest_first(v);
    let names: Vec<&str> = sorted.iter().map(|b| b.filename.as_str()).collect();
    assert_eq!(names, vec!["3.zip", "2.zip", "1.zip", "bad.zip"]);
}

#[test]
fn backups_created_together_keep_their_order() {
    let v = vec![
        info("b.zip", metadata("x", "v", "2024-03-01", false)),
        info("old.zip", metadata("x", "v", "2024-01-01", false)),
        info("a.zip", metadata("x", "v", "2024-03-01", false)),
        info("c.zip", metadata("x", "v", "2024-03-01", false)),
        info("new.zip", metadata("x", "v", "2024-04-01", false)),
    ];
    let sorted = sort_backups_newest_first(v);
    let names: Vec<&str> = sorted.iter().map(|b| b.filename.as_str()).collect();
    assert_eq!(names, vec!["new.zip", "b.zip", "a.zip", "c.zip", "old.zip"]);
}

#[test]
fn backup_member_names() {
    let parts = vec!["plugins".to_string(), "a.py".to_string()];
    assert_eq!(astrbot_launcher::backup::data_member_name(&parts), "data/plugins/a.py");
    assert_eq!(astrbot_launcher::backup::data_member_name(&Vec::new()), "data/");
}

#[test]
fn backup_walk_skips_caches_and_names_members() {
    let parts = |v: &[&str]| v.iter().map(|s| s.to_string()).collect::<Vec<String>>();
    assert_eq!(backup_walk_action(&parts(&[]), true, false), BackupWalkAction::Ignore);
    assert_eq!(backup_walk_action(&parts(&["plugins", "__pycache__"]), true, false), BackupWalkAction::SkipDir);
    assert_eq!(
        backup_walk_action(&parts(&["plugins"]), true, false),
        BackupWalkAction::AddDir("data/plugins".to_string())
    );
    assert_eq!(
        backup_walk_action(&parts(&["plugins", "a.py"]), false, true),
        BackupWalkAction::AddFile("data/plugins/a.py".to_string())
    );
    // A file named like the cache directory is kept.
    assert_eq!(
        backup_walk_action(&parts(&["__pycache__"]), false, true),
        BackupWalkAction::AddFile("data/__pycache__".to_string())
    );
    assert_eq!(backup_walk_action(&parts(&["link"]), false, false), BackupWalkAction::Ignore);
}

#[test]
fn only_automatic_backups_are_removed_after_restore() {
    assert!(removes_backup_after_restore(&metadata("x", "v", "2024", true)));
    assert!(!removes_backup_after_restore(&metadata("x", "v", "2024", false)));
}
