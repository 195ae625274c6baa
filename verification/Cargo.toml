[package]
name = "listmonk_sync"
version = "0.1.0"
edition = "2021"
publish = false

[dependencies]
anyhow = "*"
log = "*"
reqwest = { version = "*", default-features = false, features = ["multipart", "rustls-tls"] }
serde = { version = "*", features = ["derive"] }
serde_json = "*"
simplelog = "*"
tokio = { version = "*", features = ["macros", "rt-multi-thread", "time"] }

[dev-dependencies]
csv = "*"
