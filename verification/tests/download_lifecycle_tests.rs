use astrbot_launcher::download::{
    check_system_download, completed_download_percent, compute_percent_0_99, download_fallback_outcome,
    download_progress, should_emit_progress, system_download_command, system_download_failure,
};
use astrbot_launcher::error::{AppError, ErrorKind};
use astrbot_launcher::lifecycle::{
    clean_credential_value, configured_launch_port, early_exit_error, extract_credential_value,
    is_startup_completion_log, launch_env_vars, shutdown_outcome, start_shutdown_error,
    startup_verdict, unresolved_executable_error, DefaultCredentialsDetector, EarlyExit,
    StartupEvent, StartupLogWatch,
};

#[test]
fn percent_formula() {
    assert_eq!(compute_percent_0_99(50, Some(100)), Some(49));
    assert_eq!(compute_percent_0_99(100, Some(100)), Some(99));
    assert_eq!(compute_percent_0_99(7, Some(0)), Some(0));
    assert_eq!(compute_percent_0_99(7, None), None);
    assert_eq!(compute_percent_0_99(u64::MAX, Some(u64::MAX)), Some(1));
    assert_eq!(completed_download_percent(10, None), Some(99));
    assert_eq!(completed_download_percent(1, Some(4)), Some(24));
}

#[test]
fn progress_events_are_throttled() {
    assert!(!should_emit_progress(99, 5, 5));
    assert!(should_emit_progress(100, 5, 5));
    assert!(should_emit_progress(0, 6, 5));
    let p = download_progress("v4.0.0", 10, Some(20), Some(49), "downloading", "下载中");
    assert_eq!(p.id, "v4.0.0");
    assert_eq!(p.total, Some(20));
    assert_eq!(p.message, "下载中");
}

#[test]
fn url_fallbacks() {
    assert!(download_fallback_outcome(vec![Err(AppError::network("a")), Ok(())]).is_ok());
    let e = download_fallback_outcome(vec![Err(AppError::network("a")), Err(AppError::io("b"))]).unwrap_err();
    assert_eq!(e.message(), "Io: detail=b");
    let e = download_fallback_outcome(Vec::new()).unwrap_err();
    assert_eq!(e.message(), "Network: detail=没有可用的下载地址");
}

#[test]
fn system_downloader_choice() {
    let (p, args) = system_download_command(true, true, "https://x/y.zip", "/d/y.zip").unwrap();
    assert_eq!(p, "curl");
    assert_eq!(args, vec!["-L", "--max-time", "180", "--retry", "2", "-o", "/d/y.zip", "https://x/y.zip"]);
    let (p, args) = system_download_command(false, true, "https://x/y.zip", "/d/y.zip").unwrap();
    assert_eq!(p, "wget");
    assert_eq!(args, vec!["--timeout=180", "--tries=2", "-O", "/d/y.zip", "https://x/y.zip"]);
    let e = system_download_command(false, false, "u", "d").unwrap_err();
    assert_eq!(e.message(), "Network: detail=下载失败：未找到 curl 或 wget 系统命令");
}

#[test]
fn system_downloader_failures() {
    let e = system_download_failure("curl", "exit status: 22", "404");
    assert_eq!(e.message(), "Network: detail=curl 下载失败 (exit: exit status: 22): 404");
    assert!(check_system_download("wget", "/d/f", true, 10).is_ok());
    let e = check_system_download("wget", "/d/f", true, 0).unwrap_err();
    assert_eq!(e.message(), "Network: detail=wget 下载后文件 \"/d/f\" 为空或不存在");
}

#[test]
fn startup_lines() {
    assert!(is_startup_completion_log("[INFO] AstrBot started."));
    assert!(is_startup_completion_log("AstrBot 启动完成 ✓"));
    assert!(!is_startup_completion_log("AstrBot starting"));
}

#[test]
fn credential_values() {
    assert_eq!(clean_credential_value(": astrbot,"), Some("astrbot".to_string()));
    assert_eq!(clean_credential_value("：\"secret\" (change it)"), Some("secret".to_string()));
    assert_eq!(clean_credential_value("   "), None);
    assert_eq!(extract_credential_value("Initial username: astrbot", "Initial username"), Some("astrbot".to_string()));
    assert_eq!(extract_credential_value("nothing here", "Initial username"), None);
}

#[test]
fn default_credentials_need_the_default_username_first() {
    let mut d = DefaultCredentialsDetector::new();
    assert!(d.push_line("i1", "Bot", "Initial password: early").is_none());
    assert!(d.push_line("i1", "Bot", "Initial username: admin").is_none());
    assert!(d.push_line("i1", "Bot", "Initial username: astrbot").is_none());
    let found = d.push_line("i1", "Bot", "Initial password: p4ss").unwrap();
    assert_eq!(found.username, "astrbot");
    assert_eq!(found.password, "p4ss");
    assert_eq!(found.display_name, "Bot");
    assert!(d.username.is_none() && d.password.is_none());
}

#[test]
fn startup_watch_reports_completion_once() {
    let mut w = StartupLogWatch::new();
    let (c, first) = w.observe("i", "Bot", "loading plugins");
    assert!(c.is_none() && !first);
    let (_, first) = w.observe("i", "Bot", "AstrBot started.");
    assert!(first);
    let (_, first) = w.observe("i", "Bot", "AstrBot started.");
    assert!(!first);
    assert!(w.startup_sent);
}

#[test]
fn startup_wait_verdicts() {
    let (kill, r) = startup_verdict(StartupEvent::TimedOut, "i1", true);
    assert!(kill);
    assert_eq!(r.unwrap_err().kind(), ErrorKind::StartupTimeout);
    let (kill, r) = startup_verdict(StartupEvent::TimedOut, "i1", false);
    assert!(!kill);
    assert!(r.is_err());
    let (kill, r) = startup_verdict(StartupEvent::Shutdown { set: true }, "i1", true);
    assert!(kill);
    assert_eq!(r.unwrap_err().message(), "Process: detail=Cannot start instance i1: application is shutting down");
    let (kill, r) = startup_verdict(StartupEvent::Shutdown { set: false }, "i1", true);
    assert!(!kill);
    assert!(r.is_err());
    let (kill, r) = startup_verdict(StartupEvent::StartupSignal(true), "i1", true);
    assert!(!kill && r.is_ok());
    let (_, r) = startup_verdict(StartupEvent::StartupSignal(false), "i1", true);
    assert_eq!(r.unwrap_err().message(), "Process: detail=Failed to detect startup completion from log stream");
    let (kill, r) = startup_verdict(StartupEvent::Exited(EarlyExit::Status("exit status: 1".to_string())), "i1", true);
    assert!(!kill);
    assert_eq!(
        r.unwrap_err().message(),
        "Process: detail=Instance exited before startup completed (exit status: exit status: 1)"
    );
}

#[test]
fn launch_helpers() {
    assert_eq!(configured_launch_port(6185), Some(6185));
    assert_eq!(configured_launch_port(0), None);
    assert_eq!(early_exit_error(&EarlyExit::Unknown).message(), "Process: detail=Instance exited before startup completed");
    assert_eq!(
        early_exit_error(&EarlyExit::WaitFailed("io".to_string())).message(),
        "Process: detail=Instance exited before startup completed (io)"
    );
    assert_eq!(start_shutdown_error("x").message(), "Process: detail=Cannot start instance x: application is shutting down");
    assert_eq!(unresolved_executable_error(42).message(), "Process: detail=Failed to resolve executable path for PID 42");
    assert!(shutdown_outcome(7, false).is_ok());
    assert_eq!(shutdown_outcome(7, true).unwrap_err().message(), "Process: detail=Process 7 is still alive after shutdown");
}

#[test]
fn launch_environment() {
    let v = launch_env_vars("0.0.0.0", 6185, "/i/venv", "/i/venv/bin:/usr/bin", "/i/venv/bin/python", "/c/uv", "https://pypi.org/simple");
    let keys: Vec<&str> = v.iter().map(|p| p.0.as_str()).collect();
    assert_eq!(keys[0], "ASTRBOT_LAUNCHER");
    assert_eq!(v[2], ("DASHBOARD_PORT".to_string(), "6185".to_string()));
    assert_eq!(v[11], ("UV_DEFAULT_INDEX".to_string(), "https://pypi.org/simple".to_string()));
    assert_eq!(v.len(), 12);
}
