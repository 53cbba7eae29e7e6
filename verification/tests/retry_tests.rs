use dbcooper::config::{ConnectionStatus, TestConnectionResult};
use dbcooper::pool::PoolManager;
use dbcooper::retry::{OpOutcome, RetryMachine, RetryPhase};

fn connected_pool(id: &str, driver: u64) -> PoolManager {
    let mut pool = PoolManager::new();
    let config = dbcooper::config::ConnectionConfig {
        db_type: "postgres".to_string(),
        host: Some("localhost".to_string()),
        port: Some(5432),
        database: None,
        username: None,
        password: None,
        ssl: None,
        file_path: None,
        ssh_enabled: false,
        ssh_host: None,
        ssh_port: None,
        ssh_user: None,
        ssh_password: None,
        ssh_key_path: None,
    };
    let probe = TestConnectionResult {
        success: true,
        message: "ok".to_string(),
    };
    pool.complete_connect(id, config, driver, None, 1, &probe).unwrap();
    pool
}

#[test]
fn successful_first_attempt_finishes_without_reconnect() {
    let mut pool = connected_pool("a", 7);
    let mut m = RetryMachine::new();
    assert_eq!(m.phase, RetryPhase::Ensuring);
    m.on_ensure_result(Ok(()));
    assert_eq!(m.phase, RetryPhase::FirstAttempt);
    m.on_attempt_result(&mut pool, "a", Ok(()));
    assert_eq!(m.phase, RetryPhase::Done);
    assert!(matches!(m.outcome, Some(OpOutcome::Success)));
    assert_eq!(m.reconnects, 0);
    assert_eq!(pool.get_status("a"), ConnectionStatus::Connected);
}

#[test]
fn failing_operation_reconnects_exactly_once_then_surfaces_the_error() {
    let mut pool = connected_pool("a", 7);
    let mut m = RetryMachine::new();
    m.on_ensure_result(Ok(()));
    m.on_attempt_result(&mut pool, "a", Err("connection reset".to_string()));
    assert_eq!(m.phase, RetryPhase::Reconnecting);
    assert_eq!(m.reconnects, 1);
    assert_eq!(m.first_error, Some("connection reset".to_string()));

    // The forced reconnect succeeds, the retry fails again.
    m.on_reconnect_result(Ok(()));
    assert_eq!(m.phase, RetryPhase::SecondAttempt);
    m.on_attempt_result(&mut pool, "a", Err("connection reset".to_string()));
    assert_eq!(m.phase, RetryPhase::Done);
    match &m.outcome {
        Some(OpOutcome::Failed(e)) => assert_eq!(e, "connection reset"),
        _ => panic!("the second failure is surfaced"),
    }
    assert_eq!(m.reconnects, 1);
    assert_eq!(m.attempts, 2);
    assert_eq!(pool.get_status("a"), ConnectionStatus::Disconnected);
}

#[test]
fn retry_after_reconnect_can_succeed() {
    let mut pool = connected_pool("a", 7);
    let mut m = RetryMachine::new();
    m.on_ensure_result(Ok(()));
    m.on_attempt_result(&mut pool, "a", Err("stale session".to_string()));
    m.on_reconnect_result(Ok(()));
    m.on_attempt_result(&mut pool, "a", Ok(()));
    assert!(matches!(m.outcome, Some(OpOutcome::Success)));
    assert_eq!(m.reconnects, 1);
    assert_eq!(pool.get_status("a"), ConnectionStatus::Connected);
}

#[test]
fn ensure_failure_surfaces_before_any_attempt() {
    let mut m = RetryMachine::new();
    m.on_ensure_result(Err("no such connection".to_string()));
    assert_eq!(m.phase, RetryPhase::Done);
    match &m.outcome {
        Some(OpOutcome::Failed(e)) => assert_eq!(e, "no such connection"),
        _ => panic!("ensure failure is surfaced"),
    }
    assert_eq!(m.attempts, 0);
    assert_eq!(m.reconnects, 0);
}

#[test]
fn reconnect_failure_surfaces_the_connect_error() {
    let mut pool = connected_pool("a", 7);
    let mut m = RetryMachine::new();
    m.on_ensure_result(Ok(()));
    m.on_attempt_result(&mut pool, "a", Err("dropped".to_string()));
    m.on_reconnect_result(Err("auth failure".to_string()));
    assert_eq!(m.phase, RetryPhase::Done);
    match &m.outcome {
        Some(OpOutcome::Failed(e)) => assert_eq!(e, "auth failure"),
        _ => panic!("connect error is surfaced"),
    }
    assert_eq!(m.reconnects, 1);
}
