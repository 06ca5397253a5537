[package]
name = "memory_core"
version = "0.1.0"
edition = "2021"
publish = false

[dependencies]
sha2 = "=0.10.9"
chrono = "=0.4.45"
serde = { version = "=1.0.229", features = ["derive"] }
serde_json = "=1.0.154"
rusqlite = { version = "=0.40.2", features = ["bundled"] }
anyhow = "=1.0.104"
tracing = "=0.1.44"
async-trait = "=0.1.92"
tokio = { version = "=1.54.1", features = ["rt"] }
reqwest = { version = "=0.12.28", default-features = false, features = ["json"] }
fastembed = { version = "=7.5.0", default-features = false, features = ["ort-load-dynamic", "hf-hub-rustls-tls"] }
