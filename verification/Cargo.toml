[package]
name = "backend"
version = "0.1.0"
edition = "2021"
publish = false

[dependencies]
anyhow = "1"
axum = "*"
reqwest = { version = "*", default-features = false, features = ["json", "rustls-tls"] }
rspc = "*"
rspc-procedure = "*"
rusqlite = { version = "*", features = ["bundled"] }
serde = { version = "1", features = ["derive"] }
serde_json = "1"
tokio = { version = "1", features = ["full"] }
tokio-rusqlite = "*"
tower-http = { version = "*", features = ["cors"] }
