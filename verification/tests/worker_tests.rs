use lol_plugin::lcu::{LcuAuth, LcuWorker};

fn found() -> Option<(LcuAuth, String)> {
    Some((
        LcuAuth { protocol: "https".to_string(), port: 1234, password: "tok".to_string() },
        "client_dir=C:\\LoL, sources=pid=1".to_string(),
    ))
}

#[test]
fn worker_discovers_then_queries() {
    let mut w = LcuWorker::new();
    assert!(w.needs_discovery());
    assert!(w.auth().is_none());
    assert!(!w.on_discovery(None));
    assert!(w.needs_discovery());
    assert!(w.on_discovery(found()));
    assert!(!w.needs_discovery());
    assert_eq!(w.auth().unwrap().port, 1234);
}

#[test]
fn ready_check_accepted_once() {
    let mut w = LcuWorker::new();
    w.on_discovery(found());
    let a = w.on_phase("Lobby".to_string());
    assert!(a.log_phase && !a.accept_ready_check && !a.start_fullmute);
    let a = w.on_phase("ReadyCheck".to_string());
    assert!(a.log_phase && a.accept_ready_check);
    w.on_accept_result(true);
    let a = w.on_phase("ReadyCheck".to_string());
    assert!(!a.log_phase && !a.accept_ready_check);
    let a = w.on_phase("Matchmaking".to_string());
    assert!(a.log_phase && !a.accept_ready_check);
    let a = w.on_phase("ReadyCheck".to_string());
    assert!(a.accept_ready_check);
}

#[test]
fn failed_accept_is_retried() {
    let mut w = LcuWorker::new();
    w.on_discovery(found());
    assert!(w.on_phase("ReadyCheck".to_string()).accept_ready_check);
    w.on_accept_result(false);
    assert!(w.on_phase("ReadyCheck".to_string()).accept_ready_check);
}

#[test]
fn fullmute_started_once_per_game() {
    let mut w = LcuWorker::new();
    w.on_discovery(found());
    assert!(w.on_phase("InProgress".to_string()).start_fullmute);
    assert!(!w.on_phase("InProgress".to_string()).start_fullmute);
    assert!(!w.on_phase("EndOfGame".to_string()).start_fullmute);
    assert!(w.on_phase("InProgress".to_string()).start_fullmute);
}

#[test]
fn phase_error_drops_connection_and_rediscovery_resets() {
    let mut w = LcuWorker::new();
    w.on_discovery(found());
    w.on_phase("ReadyCheck".to_string());
    w.on_accept_result(true);
    w.on_phase_error();
    assert!(w.needs_discovery());
    w.on_discovery(found());
    let a = w.on_phase("ReadyCheck".to_string());
    assert!(a.log_phase && a.accept_ready_check);
}

#[test]
fn worker_reports_connection_source() {
    let mut w = LcuWorker::new();
    assert_eq!(w.source(), None);
    w.on_discovery(found());
    assert_eq!(w.source(), Some("client_dir=C:\\LoL, sources=pid=1".to_string()));
    w.on_phase_error();
    assert_eq!(w.source(), None);
}

#[test]
fn ready_check_over_a_run_of_polls() {
    let mut w = LcuWorker::new();
    w.on_discovery(found());
    let phases = ["Lobby", "ReadyCheck", "ReadyCheck", "ReadyCheck", "ReadyCheck", "Matchmaking", "ReadyCheck"];
    let oks = [true, false, true, true, true, true, true];
    let mut asked = Vec::new();
    for (p, ok) in phases.iter().zip(oks.iter()) {
        let a = w.on_phase(p.to_string());
        asked.push(a.accept_ready_check);
        if a.accept_ready_check {
            w.on_accept_result(*ok);
        }
    }
    assert_eq!(asked, vec![false, true, true, false, false, false, true]);
}

#[test]
fn fullmute_starts_once_per_in_progress_stretch() {
    let mut w = LcuWorker::new();
    w.on_discovery(found());
    let phases = ["InProgress", "InProgress", "WaitingForStats", "InProgress", "InProgress"];
    let started: Vec<bool> = phases.iter().map(|p| w.on_phase(p.to_string()).start_fullmute).collect();
    assert_eq!(started, vec![true, false, false, true, false]);
}
