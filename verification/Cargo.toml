[package]
name = "hotkeys"
version = "0.1.0"
edition = "2021"
publish = false

[dependencies]
anyhow = "*"
chrono = "*"
dirs = "*"
libc = "*"
open = "*"
serde = { version = "*", features = ["derive"] }
serde_json = "*"
