[package]
name = "debeon"
version = "0.1.0"
edition = "2021"
publish = false

[dependencies]
serde_json = "=1.0.151"
serde = { version = "*", features = ["derive"] }
anyhow = "*"
base64 = "*"
chrono = "*"
dirs = "*"
reqwest = { version = "*", default-features = false, features = ["blocking", "json", "rustls-tls"] }
tokio = { version = "*", features = ["rt-multi-thread", "macros"] }
walkdir = "*"
warp = { version = "=0.4.3", features = ["server"] }
