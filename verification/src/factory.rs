//! The driver factory: resolve a connection descriptor into a concrete
//! driver descriptor, requesting an SSH tunnel first when one is configured.
//!
//! Opening the tunnel and instantiating the backend driver are performed
//! outside the crate; the functions here make every decision up to those
//! steps and state exactly which descriptor each configuration yields.

use vstd::prelude::*;

use crate::config::ConnectionConfig;
use crate::sql::is_sqlite_kind;
use crate::text::{parse_i64, str_eq};

verus! {

/// Endpoint and credentials for a relational backend.
#[derive(Debug)]
pub struct PostgresConfig {
    pub host: String,
    pub port: i64,
    pub database: String,
    pub username: String,
    pub password: String,
    pub ssl: bool,
}

/// Location of an embedded file-backed database.
#[derive(Debug)]
pub struct SqliteConfig {
    pub file_path: String,
}

/// Endpoint and credentials for a key-value backend.
#[derive(Debug)]
pub struct RedisConfig {
    pub host: String,
    pub port: i64,
    pub password: Option<String>,
    pub db: Option<i64>,
    pub tls: bool,
}

/// Wire protocol of the columnar backend.
#[derive(Clone, Copy, Debug, PartialEq, Eq, Structural)]
pub enum ClickhouseProtocol {
    Http,
}

/// Endpoint and credentials for a columnar backend.
#[derive(Debug)]
pub struct ClickhouseConfig {
    pub host: String,
    pub port: i64,
    pub database: String,
    pub username: String,
    pub password: String,
    pub protocol: ClickhouseProtocol,
    pub ssl: bool,
}

/// The concrete driver descriptor for one backend family.
#[derive(Debug)]
pub enum DriverConfig {
    Postgres(PostgresConfig),
    Sqlite(SqliteConfig),
    Redis(RedisConfig),
    Clickhouse(ClickhouseConfig),
}

/// Parameters for bootstrapping an SSH tunnel: the SSH endpoint, one of a
/// password or a private-key path, and the remote endpoint to forward to.
#[derive(Debug)]
pub struct SshParams {
    pub host: String,
    pub port: i64,
    pub user: String,
    pub password: Option<String>,
    pub key_path: Option<String>,
    pub remote_host: String,
    pub remote_port: i64,
}

/// How to reach the target: directly, or through an SSH tunnel that must be
/// opened first.
#[derive(Debug)]
pub enum ConnectPlan {
    Direct { host: String, port: i64 },
    Tunnel(SshParams),
}

/// Whether the backend kind is a relational engine addressed by host and
/// port.
pub open spec fn is_postgres_kind(s: Seq<char>) -> bool {
    s == "postgres"@ || s == "postgresql"@
}

/// The view of an optional string, or a default view when absent.
pub open spec fn opt_view_or(o: Option<String>, d: Seq<char>) -> Seq<char> {
    match o {
        Some(s) => s@,
        None => d,
    }
}

/// An optional integer, or a default when absent.
pub open spec fn opt_or_i64(o: Option<i64>, d: i64) -> i64 {
    match o {
        Some(v) => v,
        None => d,
    }
}

/// An optional boolean, or false when absent.
pub open spec fn opt_or_false(o: Option<bool>) -> bool {
    match o {
        Some(v) => v,
        None => false,
    }
}

/// Copy an optional string, or produce the empty string when absent.
fn opt_string_or_empty(o: &Option<String>) -> (r: String)
    ensures
        r@ == opt_view_or(*o, Seq::<char>::empty()),
{
    match o {
        Some(s) => s.clone(),
        None => String::new(),
    }
}

/// An optional integer, or a default when absent.
fn opt_i64_or(o: &Option<i64>, d: i64) -> (r: i64)
    ensures
        r == opt_or_i64(*o, d),
{
    match o {
        Some(v) => *v,
        None => d,
    }
}

/// An optional boolean, or false when absent.
fn opt_bool_or_false(o: &Option<bool>) -> (r: bool)
    ensures
        r == opt_or_false(*o),
{
    match o {
        Some(v) => *v,
        None => false,
    }
}

/// Resolve how to reach the target described by `config`.
///
/// Without SSH the endpoint is the configured host and port, the host
/// falling back to the empty string and the port to the relational default.
/// With SSH enabled the SSH host, SSH user and remote host are required, the
/// SSH port falls back to the SSH default and the remote port to the
/// relational default; tunneling a file-backed database is meaningless and
/// is rejected as a configuration error.
pub fn plan_connection(config: &ConnectionConfig) -> (r: Result<ConnectPlan, String>)
    ensures
        !config.ssh_enabled ==> (r matches Ok(p) && p matches ConnectPlan::Direct {
            host,
            port,
        } && host@ == opt_view_or(config.host, Seq::<char>::empty()) && port == opt_or_i64(
            config.port,
            5432,
        )),
        config.ssh_enabled && is_sqlite_kind(config.db_type@) ==> (r matches Err(m)
            && m@ == "SSH tunneling is not supported for file-based databases"@),
        config.ssh_enabled && !is_sqlite_kind(config.db_type@) && config.ssh_host is None
            ==> (r matches Err(m) && m@ == "SSH host is required"@),
        config.ssh_enabled && !is_sqlite_kind(config.db_type@) && config.ssh_host is Some
            && config.ssh_user is None ==> (r matches Err(m)
            && m@ == "SSH user is required"@),
        config.ssh_enabled && !is_sqlite_kind(config.db_type@) && config.ssh_host is Some
            && config.ssh_user is Some && config.host is None ==> (r matches Err(m)
            && m@ == "Remote host is required"@),
        config.ssh_enabled && !is_sqlite_kind(config.db_type@) && config.ssh_host is Some
            && config.ssh_user is Some && config.host is Some ==> (r matches Ok(p)
            && p matches ConnectPlan::Tunnel(ssh)
            && ssh.host == config.ssh_host.unwrap()
            && ssh.port == opt_or_i64(config.ssh_port, 22)
            && ssh.user == config.ssh_user.unwrap()
            && ssh.password == config.ssh_password
            && ssh.key_path == config.ssh_key_path
            && ssh.remote_host == config.host.unwrap()
            && ssh.remote_port == opt_or_i64(config.port, 5432)),
{
    if !config.ssh_enabled {
        let host = opt_string_or_empty(&config.host);
        let port = opt_i64_or(&config.port, 5432);
        return Ok(ConnectPlan::Direct { host, port });
    }
    let sqlite_like = str_eq(config.db_type.as_str(), "sqlite") || str_eq(
        config.db_type.as_str(),
        "sqlite3",
    );
    if sqlite_like {
        return Err(String::from_str("SSH tunneling is not supported for file-based databases"));
    }
    let ssh_host = match &config.ssh_host {
        Some(h) => h.clone(),
        None => {
            return Err(String::from_str("SSH host is required"));
        },
    };
    let ssh_user = match &config.ssh_user {
        Some(u) => u.clone(),
        None => {
            return Err(String::from_str("SSH user is required"));
        },
    };
    let remote_host = match &config.host {
        Some(h) => h.clone(),
        None => {
            return Err(String::from_str("Remote host is required"));
        },
    };
    Ok(ConnectPlan::Tunnel(SshParams {
        host: ssh_host,
        port: opt_i64_or(&config.ssh_port, 22),
        user: ssh_user,
        password: crate::config::clone_opt_string(&config.ssh_password),
        key_path: crate::config::clone_opt_string(&config.ssh_key_path),
        remote_host,
        remote_port: opt_i64_or(&config.port, 5432),
    }))
}

/// The endpoint a driver must connect to under a plan: the configured host
/// and port directly, or the loopback address and the tunnel's local port.
pub fn effective_endpoint(plan: &ConnectPlan, tunnel_local_port: i64) -> (r: (String, i64))
    ensures
        plan matches ConnectPlan::Direct { host, port } ==> r.0 == host && r.1 == port,
        plan matches ConnectPlan::Tunnel(_) ==> r.0@ == "127.0.0.1"@
            && r.1 == tunnel_local_port,
{
    match plan {
        ConnectPlan::Direct { host, port } => (host.clone(), *port),
        ConnectPlan::Tunnel(_) => (String::from_str("127.0.0.1"), tunnel_local_port),
    }
}

/// The backend kind tags are pairwise distinct strings, so the dispatch
/// branches are mutually exclusive.
proof fn lemma_backend_kind_literals()
    ensures
        "postgres"@ != "sqlite"@,
        "postgres"@ != "sqlite3"@,
        "postgres"@ != "redis"@,
        "postgres"@ != "clickhouse"@,
        "postgresql"@ != "sqlite"@,
        "postgresql"@ != "sqlite3"@,
        "postgresql"@ != "redis"@,
        "postgresql"@ != "clickhouse"@,
        "sqlite"@ != "redis"@,
        "sqlite"@ != "clickhouse"@,
        "sqlite3"@ != "redis"@,
        "sqlite3"@ != "clickhouse"@,
        "redis"@ != "clickhouse"@,
{
    reveal_strlit("postgres");
    reveal_strlit("postgresql");
    reveal_strlit("sqlite");
    reveal_strlit("sqlite3");
    reveal_strlit("redis");
    reveal_strlit("clickhouse");
    assert("postgres"@.len() == 8);
    assert("postgresql"@.len() == 10);
    assert("sqlite"@.len() == 6);
    assert("sqlite3"@.len() == 7);
    assert("redis"@.len() == 5);
    assert("clickhouse"@.len() == 10);
    assert("postgresql"@[0] == 'p');
    assert("clickhouse"@[0] == 'c');
}

/// Append `db_type` to the unsupported-kind message.
fn unsupported_kind_message(db_type: &str) -> (m: String)
    ensures
        m@ == "Unsupported database type: "@ + db_type@,
{
    let mut m = String::from_str("Unsupported database type: ");
    m.append(db_type);
    m
}

/// Select the driver descriptor for `config`, bound to an already resolved
/// endpoint.  The relational and columnar kinds fill absent credentials with
/// their defaults, the key-value kind parses its database index out of the
/// configured database name, and the file-backed kind requires a file path.
/// An unrecognized kind is a configuration error.
pub fn build_driver_config(config: &ConnectionConfig, effective_host: String, effective_port: i64)
    -> (r: Result<DriverConfig, String>)
    ensures
        is_postgres_kind(config.db_type@) ==> (r matches Ok(d)
            && d matches DriverConfig::Postgres(pc)
            && pc.host == effective_host
            && pc.port == effective_port
            && pc.database@ == opt_view_or(config.database, Seq::<char>::empty())
            && pc.username@ == opt_view_or(config.username, Seq::<char>::empty())
            && pc.password@ == opt_view_or(config.password, Seq::<char>::empty())
            && pc.ssl == opt_or_false(config.ssl)),
        is_sqlite_kind(config.db_type@) && config.file_path is Some ==> (r matches Ok(d)
            && d matches DriverConfig::Sqlite(sc)
            && sc.file_path == config.file_path.unwrap()),
        is_sqlite_kind(config.db_type@) && config.file_path is None ==> (r matches Err(m)
            && m@ == "File path is required for SQLite connections"@),
        config.db_type@ == "redis"@ ==> (r matches Ok(d)
            && d matches DriverConfig::Redis(rc)
            && rc.host == effective_host
            && rc.port == effective_port
            && rc.password == config.password
            && (match config.database {
                Some(name) => rc.db is Some <==> crate::text::is_dec_int_literal(name@)
                    && i64::MIN <= crate::text::dec_int_value(name@) <= i64::MAX,
                None => rc.db is None,
            })
            && rc.tls == opt_or_false(config.ssl)),
        config.db_type@ == "clickhouse"@ ==> (r matches Ok(d)
            && d matches DriverConfig::Clickhouse(cc)
            && cc.host == effective_host
            && cc.port == effective_port
            && cc.database@ == opt_view_or(config.database, "default"@)
            && cc.username@ == opt_view_or(config.username, "default"@)
            && cc.password@ == opt_view_or(config.password, Seq::<char>::empty())
            && cc.protocol == ClickhouseProtocol::Http
            && cc.ssl == opt_or_false(config.ssl)),
        !is_postgres_kind(config.db_type@) && !is_sqlite_kind(config.db_type@)
            && config.db_type@ != "redis"@ && config.db_type@ != "clickhouse"@
            ==> (r matches Err(m) && m@ == "Unsupported database type: "@ + config.db_type@),
{
    proof {
        lemma_backend_kind_literals();
    }
    let db_type = config.db_type.as_str();
    if str_eq(db_type, "postgres") || str_eq(db_type, "postgresql") {
        Ok(DriverConfig::Postgres(PostgresConfig {
            host: effective_host,
            port: effective_port,
            database: opt_string_or_empty(&config.database),
            username: opt_string_or_empty(&config.username),
            password: opt_string_or_empty(&config.password),
            ssl: opt_bool_or_false(&config.ssl),
        }))
    } else if str_eq(db_type, "sqlite") || str_eq(db_type, "sqlite3") {
        match &config.file_path {
            Some(path) => Ok(DriverConfig::Sqlite(SqliteConfig { file_path: path.clone() })),
            None => Err(String::from_str("File path is required for SQLite connections")),
        }
    } else if str_eq(db_type, "redis") {
        let db = match &config.database {
            Some(name) => parse_i64(name.as_str()),
            None => None,
        };
        Ok(DriverConfig::Redis(RedisConfig {
            host: effective_host,
            port: effective_port,
            password: crate::config::clone_opt_string(&config.password),
            db,
            tls: opt_bool_or_false(&config.ssl),
        }))
    } else if str_eq(db_type, "clickhouse") {
        let database = match &config.database {
            Some(name) => name.clone(),
            None => String::from_str("default"),
        };
        let username = match &config.username {
            Some(name) => name.clone(),
            None => String::from_str("default"),
        };
        Ok(DriverConfig::Clickhouse(ClickhouseConfig {
            host: effective_host,
            port: effective_port,
            database,
            username,
            password: opt_string_or_empty(&config.password),
            protocol: ClickhouseProtocol::Http,
            ssl: opt_bool_or_false(&config.ssl),
        }))
    } else {
        Err(unsupported_kind_message(db_type))
    }
}

/// Select a driver descriptor for the unified one-shot commands, which
/// address only the relational and file-backed kinds and take the endpoint
/// fields directly.
pub fn create_driver(
    db_type: &str,
    host: Option<String>,
    port: Option<i64>,
    database: Option<String>,
    username: Option<String>,
    password: Option<String>,
    ssl: Option<bool>,
    file_path: Option<String>,
) -> (r: Result<DriverConfig, String>)
    ensures
        is_postgres_kind(db_type@) ==> (r matches Ok(d)
            && d matches DriverConfig::Postgres(pc)
            && pc.host@ == opt_view_or(host, Seq::<char>::empty())
            && pc.port == opt_or_i64(port, 5432)
            && pc.database@ == opt_view_or(database, Seq::<char>::empty())
            && pc.username@ == opt_view_or(username, Seq::<char>::empty())
            && pc.password@ == opt_view_or(password, Seq::<char>::empty())
            && pc.ssl == opt_or_false(ssl)),
        is_sqlite_kind(db_type@) && file_path is Some ==> (r matches Ok(d)
            && d matches DriverConfig::Sqlite(sc) && sc.file_path == file_path.unwrap()),
        is_sqlite_kind(db_type@) && file_path is None ==> (r matches Err(m)
            && m@ == "File path is required for SQLite connections"@),
        !is_postgres_kind(db_type@) && !is_sqlite_kind(db_type@) ==> (r matches Err(m)
            && m@ == "Unsupported database type: "@ + db_type@),
{
    proof {
        lemma_backend_kind_literals();
    }
    if str_eq(db_type, "postgres") || str_eq(db_type, "postgresql") {
        Ok(DriverConfig::Postgres(PostgresConfig {
            host: opt_string_or_empty(&host),
            port: opt_i64_or(&port, 5432),
            database: opt_string_or_empty(&database),
            username: opt_string_or_empty(&username),
            password: opt_string_or_empty(&password),
            ssl: opt_bool_or_false(&ssl),
        }))
    } else if str_eq(db_type, "sqlite") || str_eq(db_type, "sqlite3") {
        match file_path {
            Some(path) => Ok(DriverConfig::Sqlite(SqliteConfig { file_path: path })),
            None => Err(String::from_str("File path is required for SQLite connections")),
        }
    } else {
        Err(unsupported_kind_message(db_type))
    }
}

} // verus!
