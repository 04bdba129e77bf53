[package]
name = "querygraph"
version = "0.1.0"
edition = "2021"
publish = false

[dependencies]
sha2 = "0.10"
bs58 = "0.5"
uuid = { version = "1", features = ["v4", "v5"] }
ed25519-dalek = "2"
base64 = "0.22"
serde = { version = "1", features = ["derive"] }
serde_json = "1"
anyhow = "1"
csv = "1"
chrono = "0.4"
clap = { version = "4", features = ["derive"] }
reqwest = { version = "0.12", default-features = false, features = ["blocking", "json"] }
tokio = { version = "1", features = ["rt-multi-thread", "net", "macros", "time"] }
axum = "0.8"
calamine = "*"
