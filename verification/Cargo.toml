[package]
name = "nixpkgs-pr-build-bot"
version = "0.1.0"
edition = "2021"
publish = false

[dependencies]
anyhow = "1"
brace-expand = "*"
frankenstein = { version = "0.32", features = ["async-http-client"] }
once_cell = "1"
reqwest = { version = "0.12", default-features = false, features = ["json", "rustls-tls"] }
serde_json = "1"
strip-ansi-escapes = "*"
tokio = { version = "1", features = ["full"] }
