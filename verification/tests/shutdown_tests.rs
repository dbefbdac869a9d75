use astrbot_launcher::shutdown::{GracefulShutdown, ShutdownAction, ShutdownEvent};

fn targets(pids: &[u32]) -> Vec<(u32, String)> {
    pids.iter().map(|p| (*p, format!("/bin/p{}", p))).collect()
}

#[test]
fn no_target_means_nothing_to_do() {
    let m = GracefulShutdown::new(Vec::new());
    assert!(m.is_done());
    assert_eq!(m.action(), ShutdownAction::Finish);
}

#[test]
fn failed_signals_are_killed_at_once_and_the_rest_waited_for() {
    let mut m = GracefulShutdown::new(targets(&[10, 20, 30]));
    assert_eq!(m.action(), ShutdownAction::Signal(10));
    m.step(ShutdownEvent::Signalled(true));
    assert_eq!(m.action(), ShutdownAction::Signal(20));
    m.step(ShutdownEvent::Signalled(false));
    assert_eq!(m.action(), ShutdownAction::Signal(30));
    m.step(ShutdownEvent::Signalled(true));
    assert_eq!(m.action(), ShutdownAction::ForceKill(20));
    assert_eq!(m.signalled(), &targets(&[10, 30]));
    m.step(ShutdownEvent::Killed);
    assert_eq!(m.action(), ShutdownAction::CheckGone);
    m.step(ShutdownEvent::Checked(false));
    assert_eq!(m.action(), ShutdownAction::Poll);
    m.step(ShutdownEvent::Polled { deadline_passed: false, all_gone: false });
    assert_eq!(m.action(), ShutdownAction::Sleep);
    m.step(ShutdownEvent::Slept);
    assert_eq!(m.action(), ShutdownAction::Poll);
    m.step(ShutdownEvent::Polled { deadline_passed: false, all_gone: true });
    assert!(m.is_done());
}

#[test]
fn survivors_are_killed_after_the_deadline() {
    let mut m = GracefulShutdown::new(targets(&[1, 2]));
    m.step(ShutdownEvent::Signalled(true));
    m.step(ShutdownEvent::Signalled(true));
    assert_eq!(m.action(), ShutdownAction::CheckGone);
    m.step(ShutdownEvent::Checked(false));
    m.step(ShutdownEvent::Polled { deadline_passed: true, all_gone: false });
    assert_eq!(m.action(), ShutdownAction::ForceKill(1));
    m.step(ShutdownEvent::Killed);
    assert_eq!(m.action(), ShutdownAction::ForceKill(2));
    m.step(ShutdownEvent::Killed);
    assert_eq!(m.action(), ShutdownAction::Finish);
}

#[test]
fn all_signals_failing_ends_after_the_kills() {
    let mut m = GracefulShutdown::new(targets(&[5]));
    m.step(ShutdownEvent::Signalled(false));
    assert_eq!(m.action(), ShutdownAction::ForceKill(5));
    m.step(ShutdownEvent::Killed);
    assert!(m.is_done());
}

#[test]
fn an_event_that_does_not_answer_the_action_changes_nothing() {
    let mut m = GracefulShutdown::new(targets(&[7]));
    m.step(ShutdownEvent::Slept);
    assert_eq!(m.action(), ShutdownAction::Signal(7));
    let mut done = GracefulShutdown::new(targets(&[8]));
    done.step(ShutdownEvent::Signalled(true));
    done.step(ShutdownEvent::Checked(true));
    assert!(done.is_done());
    done.step(ShutdownEvent::Killed);
    assert!(done.is_done());
}
