use dbcooper::config::{ConnectionConfig, ConnectionStatus};
use dbcooper::factory::{
    build_driver_config, create_driver, effective_endpoint, plan_connection, ConnectPlan,
    DriverConfig,
};
use dbcooper::pool::PoolManager;

fn base_config(db_type: &str) -> ConnectionConfig {
    ConnectionConfig {
        db_type: db_type.to_string(),
        host: Some("db.internal".to_string()),
        port: Some(5433),
        database: Some("app".to_string()),
        username: Some("svc".to_string()),
        password: Some("secret".to_string()),
        ssl: Some(true),
        file_path: None,
        ssh_enabled: false,
        ssh_host: None,
        ssh_port: None,
        ssh_user: None,
        ssh_password: None,
        ssh_key_path: None,
    }
}

#[test]
fn direct_plan_uses_configured_endpoint_with_defaults() {
    let config = base_config("postgres");
    match plan_connection(&config).unwrap() {
        ConnectPlan::Direct { host, port } => {
            assert_eq!(host, "db.internal");
            assert_eq!(port, 5433);
        }
        ConnectPlan::Tunnel(_) => panic!("no tunnel was configured"),
    }
    let mut bare = base_config("postgres");
    bare.host = None;
    bare.port = None;
    match plan_connection(&bare).unwrap() {
        ConnectPlan::Direct { host, port } => {
            assert_eq!(host, "");
            assert_eq!(port, 5432);
        }
        ConnectPlan::Tunnel(_) => panic!("no tunnel was configured"),
    }
}

#[test]
fn tunnel_plan_collects_ssh_parameters_with_defaults() {
    let mut config = base_config("postgres");
    config.ssh_enabled = true;
    config.ssh_host = Some("bastion".to_string());
    config.ssh_user = Some("ops".to_string());
    config.ssh_password = Some("pw".to_string());
    match plan_connection(&config).unwrap() {
        ConnectPlan::Tunnel(ssh) => {
            assert_eq!(ssh.host, "bastion");
            assert_eq!(ssh.port, 22);
            assert_eq!(ssh.user, "ops");
            assert_eq!(ssh.password, Some("pw".to_string()));
            assert_eq!(ssh.key_path, None);
            assert_eq!(ssh.remote_host, "db.internal");
            assert_eq!(ssh.remote_port, 5433);
        }
        ConnectPlan::Direct { .. } => panic!("a tunnel was configured"),
    }
}

#[test]
fn tunnel_plan_reports_each_missing_field() {
    let mut config = base_config("postgres");
    config.ssh_enabled = true;
    assert_eq!(plan_connection(&config).unwrap_err(), "SSH host is required");
    config.ssh_host = Some("bastion".to_string());
    assert_eq!(plan_connection(&config).unwrap_err(), "SSH user is required");
    config.ssh_user = Some("ops".to_string());
    config.host = None;
    assert_eq!(plan_connection(&config).unwrap_err(), "Remote host is required");
}

#[test]
fn tunneling_a_file_backed_database_is_a_configuration_error() {
    let mut config = base_config("sqlite");
    config.file_path = Some("/tmp/x.db".to_string());
    config.ssh_enabled = true;
    config.ssh_host = Some("bastion".to_string());
    config.ssh_user = Some("ops".to_string());
    assert_eq!(
        plan_connection(&config).unwrap_err(),
        "SSH tunneling is not supported for file-based databases"
    );
}

#[test]
fn tunnel_endpoint_substitutes_loopback_and_local_port() {
    let config = base_config("postgres");
    let plan = plan_connection(&config).unwrap();
    let (host, port) = effective_endpoint(&plan, 50000);
    assert_eq!(host, "db.internal");
    assert_eq!(port, 5433);

    let mut tunneled = base_config("postgres");
    tunneled.ssh_enabled = true;
    tunneled.ssh_host = Some("bastion".to_string());
    tunneled.ssh_user = Some("ops".to_string());
    let plan = plan_connection(&tunneled).unwrap();
    let (host, port) = effective_endpoint(&plan, 50000);
    assert_eq!(host, "127.0.0.1");
    assert_eq!(port, 50000);
}

#[test]
fn driver_config_is_selected_by_backend_kind() {
    let config = base_config("postgresql");
    match build_driver_config(&config, "127.0.0.1".to_string(), 50000).unwrap() {
        DriverConfig::Postgres(pc) => {
            assert_eq!(pc.host, "127.0.0.1");
            assert_eq!(pc.port, 50000);
            assert_eq!(pc.database, "app");
            assert_eq!(pc.username, "svc");
            assert_eq!(pc.password, "secret");
            assert!(pc.ssl);
        }
        _ => panic!("a relational driver was configured"),
    }

    let mut redis = base_config("redis");
    redis.database = Some("2".to_string());
    match build_driver_config(&redis, "h".to_string(), 6379).unwrap() {
        DriverConfig::Redis(rc) => {
            assert_eq!(rc.db, Some(2));
            assert_eq!(rc.password, Some("secret".to_string()));
            assert!(rc.tls);
        }
        _ => panic!("a key-value driver was configured"),
    }

    let mut redis_bad_db = base_config("redis");
    redis_bad_db.database = Some("not-a-number".to_string());
    match build_driver_config(&redis_bad_db, "h".to_string(), 6379).unwrap() {
        DriverConfig::Redis(rc) => assert_eq!(rc.db, None),
        _ => panic!("a key-value driver was configured"),
    }

    let mut ch = base_config("clickhouse");
    ch.database = None;
    ch.username = None;
    match build_driver_config(&ch, "h".to_string(), 8123).unwrap() {
        DriverConfig::Clickhouse(cc) => {
            assert_eq!(cc.database, "default");
            assert_eq!(cc.username, "default");
            assert_eq!(cc.password, "secret");
        }
        _ => panic!("a columnar driver was configured"),
    }

    let unknown = base_config("mongodb");
    assert_eq!(
        build_driver_config(&unknown, "h".to_string(), 1).unwrap_err(),
        "Unsupported database type: mongodb"
    );
}

#[test]
fn file_backed_driver_requires_a_file_path() {
    let config = base_config("sqlite");
    assert_eq!(
        build_driver_config(&config, "ignored".to_string(), 0).unwrap_err(),
        "File path is required for SQLite connections"
    );
    let mut with_path = base_config("sqlite3");
    with_path.file_path = Some("/data/app.db".to_string());
    match build_driver_config(&with_path, "ignored".to_string(), 0).unwrap() {
        DriverConfig::Sqlite(sc) => assert_eq!(sc.file_path, "/data/app.db"),
        _ => panic!("a file-backed driver was configured"),
    }
}

#[test]
fn unified_create_driver_handles_relational_and_file_backends() {
    match create_driver(
        "postgres",
        Some("h".to_string()),
        None,
        Some("d".to_string()),
        None,
        None,
        None,
        None,
    )
    .unwrap()
    {
        DriverConfig::Postgres(pc) => {
            assert_eq!(pc.host, "h");
            assert_eq!(pc.port, 5432);
            assert_eq!(pc.database, "d");
            assert_eq!(pc.username, "");
            assert!(!pc.ssl);
        }
        _ => panic!("a relational driver was configured"),
    }
    match create_driver(
        "sqlite",
        None,
        None,
        None,
        None,
        None,
        None,
        Some("/tmp/a.db".to_string()),
    )
    .unwrap()
    {
        DriverConfig::Sqlite(sc) => assert_eq!(sc.file_path, "/tmp/a.db"),
        _ => panic!("a file-backed driver was configured"),
    }
    assert_eq!(
        create_driver("sqlite", None, None, None, None, None, None, None).unwrap_err(),
        "File path is required for SQLite connections"
    );
    assert_eq!(
        create_driver("oracle", None, None, None, None, None, None, None).unwrap_err(),
        "Unsupported database type: oracle"
    );
}

#[test]
fn sqlite_connect_without_file_path_creates_no_pool_entry() {
    // Connecting identifier A with SSH disabled and a file-backed backend
    // missing its file path fails while the driver is planned, so the pool
    // never stores an entry and A stays disconnected.
    let mut config = base_config("sqlite");
    config.ssh_enabled = false;
    config.file_path = None;
    let pool = PoolManager::new();

    let plan = plan_connection(&config).unwrap();
    let (host, port) = effective_endpoint(&plan, 0);
    let r = build_driver_config(&config, host, port);
    assert_eq!(r.unwrap_err(), "File path is required for SQLite connections");

    assert_eq!(pool.get_status("A"), ConnectionStatus::Disconnected);
    assert!(pool.get_cached("A").is_none());
}
