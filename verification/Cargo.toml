[package]
name = "sentinai"
version = "0.1.0"
edition = "2021"
publish = false

[dependencies]
jsonwebtoken = { version = "=11.1.0", features = ["rust_crypto"] }
chrono = { version = "=0.4.45", features = ["serde"] }
serde = { version = "*", features = ["derive"] }
serde_json = "*"
uuid = { version = "*", features = ["v4", "serde"] }
axum = "*"
tokio = { version = "*", features = ["full"] }
tokio-stream = { version = "*", features = ["sync"] }
tower-http = { version = "*", features = ["cors", "trace"] }
sqlx = { version = "*", default-features = false, features = ["runtime-tokio", "postgres", "uuid", "chrono", "macros"] }
reqwest = { version = "*", default-features = false, features = ["json"] }
dotenvy = "*"
thiserror = "*"
tracing = { version = "*", features = ["log"] }
tracing-subscriber = { version = "*", features = ["env-filter", "json"] }
tracing-error = "*"
