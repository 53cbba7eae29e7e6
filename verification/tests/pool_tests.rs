use dbcooper::config::{ConnectionConfig, ConnectionStatus, TestConnectionResult};
use dbcooper::pool::{HealthStep, PoolManager};

fn sample_config(db_type: &str) -> ConnectionConfig {
    ConnectionConfig {
        db_type: db_type.to_string(),
        host: Some("localhost".to_string()),
        port: Some(5432),
        database: Some("app".to_string()),
        username: Some("user".to_string()),
        password: Some("secret".to_string()),
        ssl: Some(false),
        file_path: None,
        ssh_enabled: false,
        ssh_host: None,
        ssh_port: None,
        ssh_user: None,
        ssh_password: None,
        ssh_key_path: None,
    }
}

fn ok_probe() -> TestConnectionResult {
    TestConnectionResult {
        success: true,
        message: "Connection successful".to_string(),
    }
}

fn failed_probe(message: &str) -> TestConnectionResult {
    TestConnectionResult {
        success: false,
        message: message.to_string(),
    }
}

#[test]
fn fresh_pool_reports_disconnected_and_nothing_cached() {
    let pool = PoolManager::new();
    assert_eq!(pool.get_status("a"), ConnectionStatus::Disconnected);
    assert!(pool.get_cached("a").is_none());
    assert!(pool.get_last_error("a").is_none());
    assert!(pool.get_config("a").is_none());
}

#[test]
fn successful_connect_caches_a_connected_driver() {
    let mut pool = PoolManager::new();
    let r = pool.complete_connect("a", sample_config("postgres"), 11, None, 5, &ok_probe());
    assert_eq!(r, Ok(11));
    assert_eq!(pool.get_status("a"), ConnectionStatus::Connected);
    assert_eq!(pool.get_cached("a"), Some(11));
    assert_eq!(pool.get_connected("a"), Some(11));
    assert!(pool.get_last_error("a").is_none());
    let config = pool.get_config("a").expect("config kept");
    assert_eq!(config.db_type, "postgres");
}

#[test]
fn disconnect_removes_the_entry_entirely() {
    let mut pool = PoolManager::new();
    pool.complete_connect("a", sample_config("postgres"), 11, Some(3), 5, &ok_probe())
        .unwrap();
    pool.disconnect("a");
    assert_eq!(pool.get_status("a"), ConnectionStatus::Disconnected);
    assert!(pool.get_cached("a").is_none());
    assert!(pool.get_config("a").is_none());
}

#[test]
fn failed_connect_still_stores_the_entry_with_its_error() {
    let mut pool = PoolManager::new();
    let r = pool.complete_connect(
        "a",
        sample_config("postgres"),
        11,
        None,
        5,
        &failed_probe("connection refused"),
    );
    assert_eq!(r, Err("connection refused".to_string()));
    assert_eq!(pool.get_status("a"), ConnectionStatus::Disconnected);
    assert_eq!(pool.get_cached("a"), Some(11));
    assert!(pool.get_connected("a").is_none());
    assert_eq!(pool.get_last_error("a"), Some("connection refused".to_string()));
}

#[test]
fn begin_connect_marks_an_existing_entry_reconnecting() {
    let mut pool = PoolManager::new();
    pool.complete_connect("a", sample_config("postgres"), 11, None, 5, &ok_probe())
        .unwrap();
    pool.begin_connect("a");
    assert_eq!(pool.get_status("a"), ConnectionStatus::Reconnecting);
    pool.begin_connect("missing");
    assert_eq!(pool.get_status("missing"), ConnectionStatus::Disconnected);
}

#[test]
fn entries_for_other_identifiers_are_untouched() {
    let mut pool = PoolManager::new();
    pool.complete_connect("a", sample_config("postgres"), 11, None, 5, &ok_probe())
        .unwrap();
    pool.complete_connect("b", sample_config("redis"), 22, None, 6, &ok_probe())
        .unwrap();
    pool.disconnect("a");
    assert_eq!(pool.get_status("b"), ConnectionStatus::Connected);
    assert_eq!(pool.get_cached("b"), Some(22));
    pool.mark_disconnected("b", Some("lost".to_string()));
    assert_eq!(pool.get_status("b"), ConnectionStatus::Disconnected);
    assert_eq!(pool.get_last_error("b"), Some("lost".to_string()));
}

#[test]
fn touch_updates_only_the_last_used_time() {
    let mut pool = PoolManager::new();
    pool.complete_connect("a", sample_config("postgres"), 11, None, 5, &ok_probe())
        .unwrap();
    pool.touch("a", 99);
    assert_eq!(pool.get_status("a"), ConnectionStatus::Connected);
    assert_eq!(pool.get_cached("a"), Some(11));
}

#[test]
fn health_check_on_unknown_identifier_fails_without_creating_an_entry() {
    let pool = PoolManager::new();
    match pool.health_check_start("ghost") {
        HealthStep::NotFound(t) => {
            assert!(!t.success);
            assert_eq!(t.message, "Connection not found");
        }
        HealthStep::Probe(_) => panic!("no entry should be probed"),
    }
    assert_eq!(pool.get_status("ghost"), ConnectionStatus::Disconnected);
    assert!(pool.get_cached("ghost").is_none());
}

#[test]
fn health_check_probes_the_cached_driver_and_records_the_outcome() {
    let mut pool = PoolManager::new();
    pool.complete_connect("a", sample_config("postgres"), 11, None, 5, &ok_probe())
        .unwrap();
    match pool.health_check_start("a") {
        HealthStep::Probe(d) => assert_eq!(d, 11),
        HealthStep::NotFound(_) => panic!("entry exists"),
    }
    pool.apply_health_result("a", &failed_probe("timed out"));
    assert_eq!(pool.get_status("a"), ConnectionStatus::Disconnected);
    assert_eq!(pool.get_last_error("a"), Some("timed out".to_string()));
    pool.apply_health_result("a", &ok_probe());
    assert_eq!(pool.get_status("a"), ConnectionStatus::Connected);
    assert!(pool.get_last_error("a").is_none());
}

#[test]
fn serialized_get_or_create_constructs_exactly_one_driver() {
    // Two callers race to get-or-create the same unseen identifier.  The
    // connect lock serializes them; this test plays both turns in order and
    // counts constructions.
    let mut pool = PoolManager::new();
    let mut constructions = 0;

    // First caller: under the lock, the cache is empty, so it constructs.
    if pool.needs_connect("a") {
        constructions += 1;
        pool.complete_connect("a", sample_config("postgres"), 11, None, 5, &ok_probe())
            .unwrap();
    }
    // Second caller: under the lock, it re-checks the cache and reuses.
    if pool.needs_connect("a") {
        constructions += 1;
        pool.complete_connect("a", sample_config("postgres"), 12, None, 6, &ok_probe())
            .unwrap();
    }
    assert_eq!(constructions, 1);
    assert_eq!(pool.get_cached("a"), Some(11));
}

#[test]
fn status_response_reports_status_and_last_error_together() {
    let mut pool = PoolManager::new();
    let r = pool.status_response("a");
    assert_eq!(r.status, ConnectionStatus::Disconnected);
    assert!(r.error.is_none());
    pool.complete_connect(
        "a",
        sample_config("postgres"),
        11,
        None,
        5,
        &failed_probe("bad credentials"),
    )
    .unwrap_err();
    let r = pool.status_response("a");
    assert_eq!(r.status, ConnectionStatus::Disconnected);
    assert_eq!(r.error, Some("bad credentials".to_string()));
}

#[test]
fn default_pool_is_empty() {
    let pool = PoolManager::default();
    assert_eq!(pool.get_status("x"), ConnectionStatus::Disconnected);
}
