use astrbot_launcher::error::{AppError, ErrorKind};
use astrbot_launcher::monitor::{
    evaluate_instances, evaluate_liveness, probe_due, probe_result_direct, LiveSnapshot, MonitorOutcome,
};
use astrbot_launcher::process_state::{InstanceRuntimeInfo, InstanceState, LaunchResult, ProcessState};

fn launched(pid: u32, port: u16) -> LaunchResult {
    LaunchResult { pid, executable_path: "/i/venv/bin/python".to_string(), port, dashboard_enabled: true }
}

fn live(s: &mut ProcessState, id: &str, pid: u32, port: u16) {
    s.begin_start(id).unwrap();
    assert_eq!(s.commit_launch(id, Ok(launched(pid, port))).unwrap(), port);
}

#[test]
fn guard_then_release_restores_the_state() {
    let mut s = ProcessState::new();
    let g = s.acquire_guard("a").unwrap();
    assert_eq!(g.instance_id(), "a");
    let e = s.acquire_guard("a").unwrap_err();
    assert_eq!(e.message(), "Process: detail=Instance a: another operation is in progress");
    let e = s.begin_start("a").unwrap_err();
    assert_eq!(e.kind(), ErrorKind::Process);
    s.release_guard(g);
    assert!(s.get_active_ids().is_empty());
    assert!(s.acquire_guard("a").is_ok());
}

#[test]
fn a_successful_launch_makes_the_instance_live() {
    let mut s = ProcessState::new();
    s.begin_start("a").unwrap();
    assert_eq!(s.get_active_ids(), vec!["a".to_string()]);
    assert!(matches!(s.get_runtime_info()[0].1, InstanceRuntimeInfo::Starting));
    assert_eq!(s.get_port("a"), None);
    assert_eq!(s.commit_launch("a", Ok(launched(100, 6185))).unwrap(), 6185);
    assert_eq!(s.get_port("a"), Some(6185));
    assert!(matches!(s.get_runtime_info()[0].1, InstanceRuntimeInfo::Live { port: 6185, dashboard_enabled: true }));
    assert_eq!(s.begin_start("a").unwrap_err().kind(), ErrorKind::InstanceRunning);
}

#[test]
fn a_failed_launch_drops_the_entry() {
    let mut s = ProcessState::new();
    s.begin_start("a").unwrap();
    let e = s.commit_launch("a", Err(AppError::startup_timeout())).unwrap_err();
    assert_eq!(e.kind(), ErrorKind::StartupTimeout);
    assert!(s.get_runtime_info().is_empty());
    assert!(s.begin_start("a").is_ok());
}

#[test]
fn stopping_and_reverting_a_stop() {
    let mut s = ProcessState::new();
    live(&mut s, "a", 100, 6185);
    let (pid, exe) = s.prepare_stop("a").unwrap();
    assert_eq!(pid, 100);
    assert_eq!(exe, "/i/venv/bin/python");
    assert!(matches!(s.get_runtime_info()[0].1, InstanceRuntimeInfo::Stopping { port: 6185, .. }));
    assert_eq!(s.prepare_stop("a").unwrap_err().message(), "Process: detail=Instance a is already stopping");
    assert!(s.revert_stop("a"));
    assert_eq!(s.get_port("a"), Some(6185));
    assert!(!s.revert_stop("a"));
    s.prepare_stop("a").unwrap();
    s.remove("a");
    assert_eq!(s.prepare_stop("a").unwrap_err().kind(), ErrorKind::InstanceNotRunning);
}

#[test]
fn stop_refusals() {
    let mut s = ProcessState::new();
    s.begin_start("a").unwrap();
    assert_eq!(s.prepare_stop("a").unwrap_err().message(), "Process: detail=Instance a is still starting");
    let _g = s.acquire_guard("b").unwrap();
    assert_eq!(s.prepare_stop("b").unwrap_err().message(), "Process: detail=Instance b: another operation is in progress");
}

#[test]
fn restart_goes_through_stopping_to_starting() {
    let mut s = ProcessState::new();
    live(&mut s, "a", 100, 6185);
    assert_eq!(s.begin_restart("a").unwrap(), Some((100, "/i/venv/bin/python".to_string())));
    s.after_restart_stop("a").unwrap();
    assert!(matches!(s.get_runtime_info()[0].1, InstanceRuntimeInfo::Starting));
    assert_eq!(s.begin_restart("b").unwrap(), None);
    assert!(s.get_active_ids().contains(&"b".to_string()));
}

#[test]
fn shutdown_drains_and_refuses_new_work() {
    let mut s = ProcessState::new();
    live(&mut s, "a", 100, 6185);
    s.begin_start("b").unwrap();
    let drained = s.drain_for_shutdown();
    assert_eq!(drained.len(), 1);
    assert_eq!(drained[0].0, "a");
    assert_eq!(drained[0].1.pid, 100);
    assert!(s.is_shutting_down());
    assert!(s.get_runtime_info().is_empty());
    assert_eq!(
        s.begin_start("c").unwrap_err().message(),
        "Process: detail=Cannot operate on instance c: application is shutting down"
    );
    assert!(s.abandon_if_shutting_down("b"));
    assert!(s.snapshot_live().is_none());
    assert!(s.check_active("x").is_err());
}

#[test]
fn monitor_outcomes_update_only_live_entries() {
    let mut s = ProcessState::new();
    live(&mut s, "a", 100, 6185);
    live(&mut s, "b", 200, 6186);
    let snaps = s.snapshot_live().unwrap();
    assert_eq!(snaps.len(), 2);
    let outcomes = vec![
        MonitorOutcome::Dead { id: "a".to_string() },
        MonitorOutcome::Alive { id: "b".to_string(), alive_failure_count: 2, next_alive_check_at: Some(9), new_pid: Some(201) },
        MonitorOutcome::Dead { id: "zzz".to_string() },
    ];
    let events = s.apply_outcomes(&outcomes);
    assert_eq!(events, vec![("a".to_string(), InstanceState::Stopped)]);
    assert_eq!(s.get_port("a"), None);
    let snaps = s.snapshot_live().unwrap();
    assert_eq!(snaps.len(), 1);
    assert_eq!(snaps[0].pid, 201);
    assert_eq!(snaps[0].alive_failure_count, 2);
}

fn snap(dashboard: bool, failures: u32, next: Option<u64>) -> LiveSnapshot {
    LiveSnapshot {
        id: "a".to_string(),
        port: 6185,
        pid: 1,
        executable_path: "/p".to_string(),
        dashboard_enabled: dashboard,
        alive_failure_count: failures,
        next_alive_check_at: next,
    }
}

#[test]
fn liveness_evaluation() {
    let s = snap(true, 3, Some(1000));
    assert!(!probe_due(&s, 999));
    assert!(probe_due(&s, 1000));
    match evaluate_liveness(&s, 10, None) {
        Some(MonitorOutcome::Alive { alive_failure_count: 3, next_alive_check_at: Some(1000), new_pid: None, .. }) => {},
        other => panic!("unexpected {other:?}"),
    }
    assert!(evaluate_liveness(&snap(true, 0, None), 10, None).is_none());
    assert!(evaluate_liveness(&snap(false, 1, None), 10, Some((1, Some(5010), None))).is_none());
    assert_eq!(probe_result_direct(true), Some((0, None, None)));
    assert_eq!(probe_result_direct(false), None);
    let outs = evaluate_instances(&vec![snap(false, 0, None)], 0, &vec![Some((0, None, None))]);
    assert_eq!(outs.len(), 1);
    assert!(matches!(outs[0], MonitorOutcome::Alive { .. }));
}
