[package]
name = "ledger_core"
version = "0.1.0"
edition = "2021"
publish = false

[dependencies]
axum = "*"
bcrypt = "=0.19.3"
serde = { version = "=1.0.229", features = ["derive"] }
serde_json = "=1.0.154"
sqlx = { version = "=0.9.0", default-features = false, features = ["postgres", "runtime-tokio", "json", "uuid", "derive"] }
strum = "=0.28.0"
strum_macros = "=0.28.0"
tokio = { version = "=1.54.1", features = ["rt-multi-thread", "macros", "net", "sync"] }
tower-sessions = "*"
uuid = { version = "=1.29.0", features = ["v4"] }
