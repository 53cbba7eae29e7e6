//! Connection configuration: the status state machine, the per-attempt
//! connection descriptor, and its construction from a stored metadata record.

use vstd::prelude::*;

verus! {

/// The lifecycle state of one pooled connection.
#[derive(Clone, Copy, Debug, PartialEq, Eq, Structural)]
pub enum ConnectionStatus {
    Connected,
    Disconnected,
    Reconnecting,
}

/// The outcome of probing a driver: probe failures are reported in the
/// result, never as faults.
pub struct TestConnectionResult {
    pub success: bool,
    pub message: String,
}

/// Immutable per-attempt descriptor of one connection target, built fresh
/// from the metadata store on every (re)connect.
pub struct ConnectionConfig {
    pub db_type: String,
    pub host: Option<String>,
    pub port: Option<i64>,
    pub database: Option<String>,
    pub username: Option<String>,
    pub password: Option<String>,
    pub ssl: Option<bool>,
    pub file_path: Option<String>,
    pub ssh_enabled: bool,
    pub ssh_host: Option<String>,
    pub ssh_port: Option<i64>,
    pub ssh_user: Option<String>,
    pub ssh_password: Option<String>,
    pub ssh_key_path: Option<String>,
}

/// Copy an optional string.
pub fn clone_opt_string(o: &Option<String>) -> (r: Option<String>)
    ensures
        r == *o,
{
    match o {
        Some(s) => Some(s.clone()),
        None => None,
    }
}

impl ConnectionConfig {
    /// An exact copy of the descriptor.
    pub fn clone_of(&self) -> (c: Self)
        ensures
            c == *self,
    {
        ConnectionConfig {
            db_type: self.db_type.clone(),
            host: clone_opt_string(&self.host),
            port: self.port,
            database: clone_opt_string(&self.database),
            username: clone_opt_string(&self.username),
            password: clone_opt_string(&self.password),
            ssl: self.ssl,
            file_path: clone_opt_string(&self.file_path),
            ssh_enabled: self.ssh_enabled,
            ssh_host: clone_opt_string(&self.ssh_host),
            ssh_port: self.ssh_port,
            ssh_user: clone_opt_string(&self.ssh_user),
            ssh_password: clone_opt_string(&self.ssh_password),
            ssh_key_path: clone_opt_string(&self.ssh_key_path),
        }
    }
}

/// One stored connection record, with the fields the pool reads: the flags
/// are kept as the integers of the store, and the SSH text fields use the
/// empty string for absence.
pub struct ConnectionRecord {
    pub db_type: String,
    pub host: String,
    pub port: i64,
    pub database: String,
    pub username: String,
    pub password: String,
    pub ssl: i64,
    pub file_path: Option<String>,
    pub ssh_enabled: i64,
    pub ssh_host: String,
    pub ssh_port: i64,
    pub ssh_user: String,
    pub ssh_password: String,
    pub ssh_key_path: String,
}

/// `None` for an empty string, `Some` otherwise.
pub open spec fn spec_none_if_empty(s: String) -> Option<String> {
    if s@.len() == 0 {
        None
    } else {
        Some(s)
    }
}

/// Copy a string, turning the empty string into `None`.
fn none_if_empty(s: &String) -> (r: Option<String>)
    ensures
        r == spec_none_if_empty(*s),
{
    if s.as_str().is_empty() {
        None
    } else {
        Some(s.clone())
    }
}

/// Build the per-attempt connection descriptor from a stored record: the
/// integer flags become booleans, and the SSH text fields become `None` when
/// empty.
pub fn config_from_record(rec: &ConnectionRecord) -> (c: ConnectionConfig)
    ensures
        c == (ConnectionConfig {
            db_type: rec.db_type,
            host: Some(rec.host),
            port: Some(rec.port),
            database: Some(rec.database),
            username: Some(rec.username),
            password: Some(rec.password),
            ssl: Some(rec.ssl == 1),
            file_path: rec.file_path,
            ssh_enabled: rec.ssh_enabled == 1,
            ssh_host: spec_none_if_empty(rec.ssh_host),
            ssh_port: Some(rec.ssh_port),
            ssh_user: spec_none_if_empty(rec.ssh_user),
            ssh_password: spec_none_if_empty(rec.ssh_password),
            ssh_key_path: spec_none_if_empty(rec.ssh_key_path),
        }),
{
    ConnectionConfig {
        db_type: rec.db_type.clone(),
        host: Some(rec.host.clone()),
        port: Some(rec.port),
        database: Some(rec.database.clone()),
        username: Some(rec.username.clone()),
        password: Some(rec.password.clone()),
        ssl: Some(rec.ssl == 1),
        file_path: clone_opt_string(&rec.file_path),
        ssh_enabled: rec.ssh_enabled == 1,
        ssh_host: none_if_empty(&rec.ssh_host),
        ssh_port: Some(rec.ssh_port),
        ssh_user: none_if_empty(&rec.ssh_user),
        ssh_password: none_if_empty(&rec.ssh_password),
        ssh_key_path: none_if_empty(&rec.ssh_key_path),
    }
}

/// The connection URL of the metadata store's own database file, opened in
/// read-write-create mode.
pub fn sqlite_db_url(path: &str) -> (r: String)
    ensures
        r@ == "sqlite:"@ + path@ + "?mode=rwc"@,
{
    let mut r = String::from_str("sqlite:");
    r.append(path);
    r.append("?mode=rwc");
    proof {
        assert(r@ =~= "sqlite:"@ + path@ + "?mode=rwc"@);
    }
    r
}

} // verus!
