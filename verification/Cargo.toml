[package]
name = "catalog_mirror"
version = "0.1.0"
edition = "2021"
publish = false

[dependencies]
anyhow = "1"
axum = "0.5"
dotenv = "0.15"
http = "0.2"
log = "0.4"
reqwest = { version = "0.11", default-features = false, features = ["json", "rustls-tls"] }
serde = { version = "1", features = ["derive"] }
serde_json = "1"
sqlx = { version = "0.6", default-features = false, features = ["runtime-tokio-rustls", "sqlite", "migrate"] }
tokio = { version = "1", features = ["rt-multi-thread", "macros", "time", "sync"] }
tower-http = { version = "0.3", features = ["cors", "trace"] }
tracing-subscriber = "0.3"
