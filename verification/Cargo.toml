[package]
name = "dbcooper"
version = "0.1.0"
edition = "2021"
publish = false

[dependencies]
serde = { version = "*", features = ["derive"] }
serde_json = "*"
tokio = { version = "*", features = ["rt", "sync", "macros"] }
sqlx = { version = "*", default-features = false, features = ["runtime-tokio", "sqlite"] }
uuid = { version = "*", features = ["v4"] }
dirs = "*"
thiserror = "*"
futures-util = "*"
reqwest = { version = "*", default-features = false, features = ["json", "stream"] }
