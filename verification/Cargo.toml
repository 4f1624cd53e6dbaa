[package]
name = "horae"
version = "0.1.0"
edition = "2021"
publish = false

[dependencies]
anyhow = "1"
chrono = "=0.4.45"
extism = { version = "=1.21.0", default-features = false }
serde = { version = "1", features = ["derive"] }
serde_json = "=1.0.154"
sqlx = { version = "=0.8.6", default-features = false, features = ["postgres", "runtime-tokio"] }
tokio = { version = "1", features = ["rt", "time"] }
toml = "=0.8.23"
tracing = "0.1"
ureq = "=2.12.1"
uuid = { version = "=1.29.0", features = ["v7"] }
