[package]
name = "livereload_core"
version = "0.1.0"
edition = "2021"
publish = false

[dependencies]
anyhow = "*"
askama = "*"
axum = "*"
bytes = "*"
notify = "*"
tokio = { version = "*", features = ["full"] }
tower-http = { version = "*", features = ["fs", "trace"] }
tracing = "*"
tracing-subscriber = { version = "*", features = ["env-filter"] }
