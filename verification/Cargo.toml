[package]
name = "uran_core"
version = "0.1.0"
edition = "2021"
publish = false

[dependencies]
uuid = { version = "*", features = ["v4"] }
chrono = "*"
serde_json = "*"
serde = { version = "*", features = ["derive"] }
anyhow = "*"
dotenvy = "*"
tokio = { version = "*", features = ["full"] }
axum = "*"
sqlx = { version = "*", default-features = false, features = ["postgres", "runtime-tokio"] }
tower-http = { version = "*", features = ["fs", "cors", "trace"] }
tracing = "*"
tracing-subscriber = { version = "*", features = ["env-filter"] }
