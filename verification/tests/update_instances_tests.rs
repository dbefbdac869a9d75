use astrbot_launcher::error::{AppError, ErrorKind};
use astrbot_launcher::instances::{instance_status, list_instances};
use astrbot_launcher::manifest::{AppManifest, InstalledVersion, InstanceConfig};
use astrbot_launcher::process_state::{InstanceRuntimeInfo, InstanceState};
use astrbot_launcher::update::{restore_failure_error, version_change};

fn inst(name: &str, version: &str, host: &str, port: u16) -> InstanceConfig {
    InstanceConfig {
        name: name.to_string(),
        version: version.to_string(),
        host: host.to_string(),
        port,
        created_at: "2024".to_string(),
    }
}

fn manifest() -> AppManifest {
    AppManifest {
        instances: vec![
            ("b-id".to_string(), inst("Bee", "v4.0.0", "0.0.0.0", 6186)),
            ("a-id".to_string(), inst("Ant", "v4.1.0", "  ", 6185)),
        ],
        installed_versions: vec![
            InstalledVersion { version: "v4.0.0".to_string(), zip_path: "z0".to_string() },
            InstalledVersion { version: "v4.1.0".to_string(), zip_path: "z1".to_string() },
        ],
        tracked_instances_snapshot: Vec::new(),
    }
}

#[test]
fn version_change_detection() {
    let m = manifest();
    assert_eq!(version_change(&m, "b-id", None).unwrap(), None);
    assert_eq!(version_change(&m, "b-id", Some("v4.0.0")).unwrap(), None);
    assert_eq!(version_change(&m, "b-id", Some("v4.1.0")).unwrap(), Some("v4.1.0".to_string()));
    let e = version_change(&m, "b-id", Some("v9.9.9")).unwrap_err();
    assert_eq!(e.kind(), ErrorKind::VersionNotFound);
    assert_eq!(e.message(), "VersionNotFound: version=v9.9.9");
    let e = version_change(&m, "zzz", Some("v4.1.0")).unwrap_err();
    assert_eq!(e.message(), "InstanceNotFound: id=zzz");
}

#[test]
fn failed_restore_keeps_the_backup_named() {
    let e = restore_failure_error("/b/x-auto.zip", &AppError::io("disk full"));
    assert_eq!(e.kind(), ErrorKind::Backup);
    assert_eq!(
        e.message(),
        "Backup: detail=自动备份还原失败，已保留备份 /b/x-auto.zip。请在“备份管理”中手动恢复该备份并确认数据。原始错误: Io: detail=disk full"
    );
}

#[test]
fn one_status() {
    let c = inst("Ant", "v4.1.0", "", 6185);
    let s = instance_status("a-id", &c, Some(InstanceRuntimeInfo::Starting), false, false, "0.0.0.0");
    assert_eq!(s.state, InstanceState::Starting);
    assert_eq!(s.port, 6185);
    assert!(!s.dashboard_enabled);
    assert_eq!(s.configured_host, "0.0.0.0");
    let s = instance_status("a-id", &c, Some(InstanceRuntimeInfo::Stopping { port: 7001, dashboard_enabled: false }), true, true, "h");
    assert_eq!(s.state, InstanceState::Stopping);
    assert_eq!(s.port, 7001);
    assert!(!s.dashboard_enabled);
    assert!(s.pid_tracker_not_available);
}

#[test]
fn listing_is_ordered_by_id_with_runtime_state() {
    let m = manifest();
    let runtime = vec![("b-id".to_string(), InstanceRuntimeInfo::Live { port: 7000, dashboard_enabled: true })];
    let list = list_instances(&m, &runtime, &vec![false, true], false, "127.0.0.1");
    assert_eq!(list.len(), 2);
    assert_eq!(list[0].id, "a-id");
    assert_eq!(list[0].state, InstanceState::Stopped);
    assert_eq!(list[0].port, 6185);
    assert!(list[0].dashboard_enabled);
    assert_eq!(list[0].configured_host, "127.0.0.1");
    assert_eq!(list[1].id, "b-id");
    assert_eq!(list[1].state, InstanceState::Running);
    assert_eq!(list[1].port, 7000);
    assert_eq!(list[1].configured_port, 6186);
    assert_eq!(list[1].configured_host, "0.0.0.0");
    assert_eq!(list[1].name, "Bee");
}
