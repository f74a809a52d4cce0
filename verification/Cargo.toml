[package]
name = "signal-tui"
version = "0.1.0"
edition = "2021"
publish = false

[dependencies]
anyhow = "1"
arboard = "3"
chrono = "0.4"
crossterm = "0.28"
dirs = "5"
image = { version = "0.25", default-features = false, features = ["png", "jpeg", "gif", "webp"] }
qrcode = { version = "0.14", default-features = false }
ratatui = "0.29"
rusqlite = { version = "0.32", features = ["bundled"] }
serde = { version = "1", features = ["derive"] }
serde_json = "1"
tokio = { version = "1", features = ["full"] }
toml = "0.8"
uuid = { version = "1", features = ["v4"] }
