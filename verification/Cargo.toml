[package]
name = "supervisorr"
version = "0.1.0"
edition = "2021"
publish = false

[dependencies]
anyhow = "1"
axum = { version = "*", features = ["multipart"] }
clap = { version = "4", features = ["derive"] }
nix = { version = "*", features = ["signal"] }
serde = { version = "1", features = ["derive"] }
serde_json = "1"
tokio = { version = "1", features = ["full"] }
toml = "*"
