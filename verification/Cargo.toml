[package]
name = "dev-dashboard"
version = "0.1.0"
edition = "2021"
publish = false

[dependencies]
chrono = { version = "0.4", features = ["serde"] }
crossterm = "0.27"
dirs = "5"
ratatui = "0.26"
serde = { version = "1", features = ["derive"] }
serde_json = "1"
signal-hook = "0.3"
sysinfo = "0.30"
