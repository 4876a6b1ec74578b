[package]
name = "aegis-ai-runtime"
version = "0.1.0"
edition = "2021"
publish = false

[dependencies]
serde = { version = "1", features = ["derive"] }
serde_json = "1"
serde_yaml = "0.9"
rhai = "1"
reqwest = { version = "0.12", default-features = false, features = ["blocking", "rustls-tls"] }
clap = { version = "4", features = ["derive"] }
thiserror = "1"
async-trait = "0.1"
