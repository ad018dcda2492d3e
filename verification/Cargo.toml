[package]
name = "spread_circuit"
version = "0.1.0"
edition = "2021"
publish = false

[dependencies]
alloy = { version = "0.8", default-features = false }
anyhow = "1"
axum = { version = "0.7", default-features = false, features = ["http1", "tokio"] }
dotenvy = "0.15"
futures-util = { version = "0.3", default-features = false, features = ["std", "sink"] }
prometheus = { version = "0.13", default-features = false }
rusqlite = { version = "0.32", default-features = false, features = ["bundled"] }
serde_json = "1"
tokio = { version = "1", features = ["rt-multi-thread", "macros", "sync", "time", "net", "signal"] }
tokio-tungstenite = { version = "0.24", default-features = false, features = ["connect", "rustls-tls-webpki-roots"] }
tokio-util = "0.7"
tracing = "0.1"
tracing-appender = "0.2"
tracing-subscriber = { version = "0.3", default-features = false, features = ["fmt", "registry", "env-filter", "json"] }
