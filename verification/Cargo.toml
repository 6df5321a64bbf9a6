[package]
name = "software_should_work"
version = "0.1.0"
edition = "2021"
publish = false

[dependencies]
askama = "=0.14.0"
axum = "=0.8.9"
chrono = "=0.4.45"
chrono-tz = "=0.10.4"
hex = "=0.4.3"
hmac = "=0.12.1"
reqwest = { version = "=0.12.28", default-features = false, features = ["rustls-tls"] }
serde = { version = "=1.0.229", features = ["derive"] }
serde_json = { version = "=1.0.154", features = ["raw_value"] }
sha2 = "=0.10.9"
sqlx = { version = "=0.8.6", default-features = false, features = ["sqlite", "runtime-tokio"] }
tokio = { version = "=1.54.1", features = ["macros", "rt-multi-thread", "net", "signal"] }
tower-http = { version = "=0.6.11", features = ["trace"] }
tracing = "=0.1.44"
tracing-subscriber = { version = "=0.3.23", features = ["env-filter", "json"] }
