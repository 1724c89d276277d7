[package]
name = "pageweave"
version = "0.1.0"
edition = "2021"
publish = false

[dependencies]
regex = "1"
encoding_rs = "0.8"
chrono = "0.4"
uuid = { version = "1", features = ["v4"] }
serde = { version = "1", features = ["derive"] }
serde_json = "1"
rusqlite = { version = "*", features = ["bundled"] }
reqwest = { version = "0.12", default-features = false, features = ["json", "rustls-tls"] }
tokio = { version = "1", features = ["full"] }
which = "*"
tracing-subscriber = { version = "0.3", features = ["env-filter"] }
