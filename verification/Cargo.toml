[package]
name = "termplex"
version = "0.1.0"
edition = "2021"
publish = false

[dependencies]
anyhow = "1"
arboard = { version = "3", default-features = false }
base64 = "0.22"
bincode = { version = "2", features = ["serde"] }
clap = { version = "4", features = ["derive"] }
crossterm = "0.29"
libc = "0.2"
portable-pty = "0.9"
ratatui = "0.30"
serde = { version = "1", features = ["derive"] }
serde_json = "1"
tokio = { version = "1", features = ["full"] }
vt100 = "0.16"
