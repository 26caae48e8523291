[package]
name = "spirean"
version = "0.1.0"
edition = "2021"
publish = false

[dependencies]
chrono = { version = "=0.4.45", default-features = false, features = ["clock", "std", "serde"] }
validator = { version = "=0.21.0", features = ["derive"] }
serde = { version = "=1.0.229", features = ["derive"] }
serde_json = "=1.0.154"
thiserror = "=1.0.69"
anyhow = "=1.0.104"
log = "=0.4.35"
futures = "=0.3.34"
async-trait = "=0.1.92"
http-body = "=1.1.0"
tokio = { version = "=1.54.1", features = ["full"] }
axum = "=0.8.9"
axum-core = "0.4"
axum-macros = "=0.5.1"
axum-flash = "=0.8.0"
axum_csrf = "=0.12.0"
axum_session = "=0.22.1"
axum_session_auth = "=0.22.0"
axum_session_sqlx = { version = "*", features = ["postgres"] }
askama = "=0.16.1"
sqlx = { version = "*", default-features = false, features = ["postgres", "runtime-tokio", "chrono", "macros"] }
tower-http = { version = "=0.7.1", features = ["catch-panic", "compression-gzip", "cors", "sensitive-headers", "fs", "trace"] }
tracing = "=0.1.44"
tracing-subscriber = "=0.3.23"
