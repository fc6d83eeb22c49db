[package]
name = "musicindex_live_publisher"
version = "0.1.0"
edition = "2021"
publish = false

[dependencies]
anyhow = "1"
directories = "*"
lofty = "*"
notify = "*"
reqwest = { version = "0.12", default-features = false, features = ["blocking", "json", "rustls-tls"] }
rusqlite = { version = "*", features = ["bundled"] }
serde = { version = "1", features = ["derive"] }
serde_json = "1"
signal-hook = "0.3"
toml = "*"
tracing = "0.1"
tracing-subscriber = { version = "0.3", features = ["env-filter"] }
uuid = { version = "1", features = ["v4"] }
