[package]
name = "quote_sidecar"
version = "0.1.0"
edition = "2021"
publish = false

[dependencies]
anyhow = "1"
axum = { version = "0.8", default-features = false, features = ["http1", "tokio"] }
config = { version = "0.15", default-features = false }
serde = { version = "1", features = ["derive"] }
tokio = { version = "1", features = ["macros", "rt-multi-thread", "net", "signal", "fs", "time"] }
tower-http = { version = "0.6", features = ["cors", "trace"] }
tracing = "0.1"
