[package]
name = "gterm"
version = "0.1.0"
edition = "2021"
publish = false

[dependencies]
anyhow = "*"
dirs = "*"
portable-pty = "*"
serde = { version = "*", features = ["derive"] }
ssh2 = "*"
tokio = { version = "*", features = ["rt-multi-thread", "sync", "time", "macros"] }
