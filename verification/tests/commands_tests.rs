use astrbot_launcher::commands::{
    apply_uv_fallback, build_app_snapshot, launcher_release_tag, check_use_uv_for_deps, compare_versions,
    component_id_or_error, ensure_no_active_instances, instance_port_or_error,
    lock_check_subject, missing_arg, proxy_check_verdict, pypi_mirror_check_url,
    pypi_mirror_to_save, sort_installed_versions, systemctl_toggle_action, systemd_unit_path,
    version_listed_before, version_order_result, LockCheckSubject, LockCheckTarget,
};
use astrbot_launcher::component::{build_components_snapshot, ComponentId};
use astrbot_launcher::config::AppConfig;
use astrbot_launcher::error::ErrorKind;
use astrbot_launcher::manifest::InstalledVersion;

fn config(use_uv: bool) -> AppConfig {
    AppConfig {
        mainland_acceleration: false,
        github_proxy: String::new(),
        proxy_url: String::new(),
        proxy_port: String::new(),
        proxy_username: String::new(),
        proxy_password: String::new(),
        pypi_mirror: String::new(),
        nodejs_mirror: String::new(),
        npm_registry: String::new(),
        use_uv_for_deps: use_uv,
        close_to_tray: true,
        autostart_minimize_to_tray: false,
        check_instance_update: true,
        persist_instance_state: false,
        ignore_external_path: false,
        lock_check_extension_whitelist: false,
        theme_preference: "system".to_string(),
    }
}

fn version(v: &str) -> InstalledVersion {
    InstalledVersion { version: v.to_string(), zip_path: format!("/data/versions/{v}.zip") }
}

#[test]
fn compare_versions_orders_semantic_versions() {
    assert_eq!(compare_versions("v1.2.0".to_string(), "1.10.0".to_string()), -1);
    assert_eq!(compare_versions("1.10.0".to_string(), "v1.2.0".to_string()), 1);
    assert_eq!(compare_versions("v4.0.0".to_string(), "4.0.0".to_string()), 0);
    assert_eq!(compare_versions("1.0.0-beta.1".to_string(), "1.0.0".to_string()), -1);
    assert_eq!(compare_versions("vv2.0.0".to_string(), "1.0.0".to_string()), 1);
}

#[test]
fn compare_versions_is_zero_for_non_versions() {
    assert_eq!(compare_versions("latest".to_string(), "1.0.0".to_string()), 0);
    assert_eq!(compare_versions("1.0".to_string(), "2.0.0".to_string()), 0);
}

#[test]
fn compare_versions_swapped_negates() {
    let pairs = [("v3.5.1", "v3.5.10"), ("2.0.0", "2.0.0"), ("0.1.0-rc.2", "0.1.0-rc.10")];
    for (a, b) in pairs {
        let x = compare_versions(a.to_string(), b.to_string());
        let y = compare_versions(b.to_string(), a.to_string());
        assert_eq!(x, -y);
    }
}

#[test]
fn version_order_result_maps_answers() {
    assert_eq!(version_order_result(Some(-1)), -1);
    assert_eq!(version_order_result(Some(1)), 1);
    assert_eq!(version_order_result(None), 0);
}

#[test]
fn versions_listed_newest_first_then_other_texts() {
    let v = vec![version("v1.2.0"), version("dev"), version("v1.10.0"), version("alpha"), version("v0.9.0")];
    let sorted = sort_installed_versions(v);
    let names: Vec<&str> = sorted.iter().map(|x| x.version.as_str()).collect();
    assert_eq!(names, vec!["v1.10.0", "v1.2.0", "v0.9.0", "dev", "alpha"]);
    assert_eq!(sorted[0].zip_path, "/data/versions/v1.10.0.zip");
}

#[test]
fn listed_before_is_never_both_ways() {
    assert!(version_listed_before("v2.0.0", "v1.0.0"));
    assert!(!version_listed_before("v1.0.0", "v2.0.0"));
    assert!(version_listed_before("v1.0.0", "nightly"));
    assert!(!version_listed_before("nightly", "v1.0.0"));
    assert!(version_listed_before("zeta", "alpha"));
    assert!(!version_listed_before("same", "same"));
}

#[test]
fn missing_arg_names_the_argument() {
    let e = missing_arg("instance_id");
    assert_eq!(e.kind(), ErrorKind::Other);
    assert_eq!(e.message(), "Other: detail=缺少参数: instance_id");
}

#[test]
fn uv_fallback_turns_uv_off_when_missing() {
    let mut c = config(true);
    assert!(apply_uv_fallback(&mut c, false));
    assert!(!c.use_uv_for_deps);
    let mut c = config(true);
    assert!(!apply_uv_fallback(&mut c, true));
    assert!(c.use_uv_for_deps);
    let mut c = config(false);
    assert!(!apply_uv_fallback(&mut c, false));
    assert!(!c.use_uv_for_deps);
}

#[test]
fn enabling_uv_requires_uv() {
    let e = check_use_uv_for_deps(true, false).unwrap_err();
    assert_eq!(e.message(), "Other: detail=uv 组件未安装，无法启用 uv 安装依赖");
    assert!(check_use_uv_for_deps(true, true).is_ok());
    assert!(check_use_uv_for_deps(false, false).is_ok());
}

#[test]
fn pypi_mirror_probe_and_saved_value() {
    assert_eq!(pypi_mirror_check_url(""), "https://pypi.org/simple/");
    assert_eq!(pypi_mirror_check_url(" https://mirrors.example/pypi/ "), "https://mirrors.example/pypi/simple/");
    assert_eq!(pypi_mirror_to_save("   "), "");
    assert_eq!(pypi_mirror_to_save("https://a.example/simple/"), "https://a.example/simple");
}

#[test]
fn proxy_must_reach_one_probe_site() {
    let e = proxy_check_verdict(false, false, false).unwrap_err();
    assert_eq!(e.kind(), ErrorKind::Network);
    assert_eq!(e.message(), "Network: detail=代理配置错误，无法连接 cloudflare.com 或 baidu.com");
    assert!(proxy_check_verdict(true, false, false).is_ok());
    assert!(proxy_check_verdict(false, true, false).is_ok());
    assert!(proxy_check_verdict(false, false, true).is_ok());
}

#[test]
fn component_ids_resolve_or_fail() {
    assert_eq!(component_id_or_error("uv").unwrap(), ComponentId::UV);
    assert_eq!(component_id_or_error("nodejs").unwrap(), ComponentId::Nodejs);
    let e = component_id_or_error("ruby").unwrap_err();
    assert_eq!(e.message(), "Other: detail=Unknown component: ruby");
}

#[test]
fn instance_port_requires_a_running_instance() {
    assert_eq!(instance_port_or_error(Some(6185)).unwrap(), 6185);
    let e = instance_port_or_error(None).unwrap_err();
    assert_eq!(e.kind(), ErrorKind::InstanceNotRunning);
    assert_eq!(e.message(), "InstanceNotRunning");
}

#[test]
fn rebuild_refused_while_instances_run() {
    assert!(ensure_no_active_instances(&Vec::new()).is_ok());
    let e = ensure_no_active_instances(&vec!["a".to_string()]).unwrap_err();
    assert_eq!(e.kind(), ErrorKind::InstanceRunning);
}

#[test]
fn lock_check_subjects() {
    match lock_check_subject(LockCheckTarget::BackupRestore, Some("x"), Some("/b/x.zip")).unwrap() {
        LockCheckSubject::Backup(p) => assert_eq!(p, "/b/x.zip"),
        other => panic!("unexpected {other:?}"),
    }
    match lock_check_subject(LockCheckTarget::InstanceUpgrade, Some("id-1"), None).unwrap() {
        LockCheckSubject::Instance(i) => assert_eq!(i, "id-1"),
        other => panic!("unexpected {other:?}"),
    }
    let e = lock_check_subject(LockCheckTarget::BackupRestore, Some("id"), None).unwrap_err();
    assert_eq!(e.message(), "Other: detail=check_lock 缺少 backup_path");
    let e = lock_check_subject(LockCheckTarget::InstanceData, None, Some("p")).unwrap_err();
    assert_eq!(e.message(), "Other: detail=check_lock 缺少 instance_id");
}

#[test]
fn systemd_unit_and_actions() {
    assert_eq!(systemd_unit_path(), "/etc/systemd/system/astrbot-launcher.service");
    assert_eq!(systemctl_toggle_action(true), "enable");
    assert_eq!(systemctl_toggle_action(false), "disable");
}

#[test]
fn snapshot_applies_fallback_and_orders_versions() {
    let (snap, changed) = build_app_snapshot(
        Vec::new(),
        vec![version("v1.0.0"), version("v2.0.0")],
        Vec::new(),
        build_components_snapshot(true, false, false),
        config(true),
        false,
    );
    assert!(changed);
    assert!(!snap.config.use_uv_for_deps);
    assert_eq!(snap.versions[0].version, "v2.0.0");
    assert_eq!(snap.versions[1].version, "v1.0.0");
    assert_eq!(snap.components.components.len(), 3);
    assert_eq!(snap.config.theme_preference, "system");
}

#[test]
fn version_text() {
    assert_eq!(astrbot_launcher::commands::get_version(), "0.1.0");
}

#[test]
fn launcher_release_tags_carry_one_v() {
    assert_eq!(launcher_release_tag("1.2.3"), "v1.2.3");
    assert_eq!(launcher_release_tag("v1.2.3"), "v1.2.3");
    assert_eq!(launcher_release_tag(""), "v");
}
