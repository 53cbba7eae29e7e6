//! Connection pool and unified driver abstraction for heterogeneous database
//! backends.
//!
//! The crate models the decision logic of the system: the pool state machine
//! that caches one driver per connection identifier, the driver factory that
//! resolves a declarative configuration (including an SSH tunnel request) into
//! a concrete driver descriptor, the reconnect-once retry protocol, and the
//! safe construction of row-level mutation statements.  Network and disk work
//! is performed outside the crate; its outcomes are handed to the functions
//! here as plain values.

pub mod ai_support;
pub mod config;
pub mod factory;
pub mod pool;
pub mod retry;
pub mod sql;
pub mod text;

pub use config::ConnectionConfig;
pub use config::ConnectionStatus;
pub use factory::create_driver;
pub use pool::PoolManager;
pub use sql::escape_sql_identifier;
pub use sql::format_sql_value;
pub use sql::validate_raw_sql_value;
