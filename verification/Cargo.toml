[package]
name = "codex_meter"
version = "0.1.0"
edition = "2021"
publish = false

[dependencies]
axum = "0.7"
hex = "0.4"
hmac = "0.12"
notify = "6"
serde = { version = "1", features = ["derive"] }
serde_json = "1"
sha2 = "0.10"
sqlx = { version = "0.8", default-features = false, features = ["runtime-tokio", "sqlite"] }
thiserror = "1"
time = { version = "0.3", features = ["formatting", "parsing", "macros"] }
tokio = { version = "1", features = ["macros", "net", "rt-multi-thread", "sync", "time"] }
