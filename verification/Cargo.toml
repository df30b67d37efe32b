[package]
name = "laterite_admin"
version = "0.1.0"
edition = "2021"
publish = false

[dependencies]
anyhow = "1"
askama = "0.14"
axum = { version = "0.8", features = ["multipart"] }
axum-extra = { version = "0.10", features = ["cookie"] }
blake3 = "1"
chrono = { version = "0.4", features = ["unstable-locales"] }
chrono-tz = "0.10"
cookie = "0.18"
csv = "1"
form_urlencoded = "1"
ipnet = "2"
listenfd = "1"
rand = "0.8"
sea-query = "0.32"
serde = { version = "1", features = ["derive"] }
serde-saphyr = "*"
serde_json = "1"
sqlx = { version = "0.8", default-features = false, features = ["any", "runtime-tokio"] }
thiserror = "2"
tokio = { version = "1", features = ["macros", "net", "rt-multi-thread", "signal"] }
tower-http = { version = "0.6", features = ["catch-panic", "trace"] }
tracing = "0.1"
