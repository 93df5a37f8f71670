[package]
name = "plate_spinner"
version = "0.1.0"
edition = "2021"
publish = false

[dependencies]
anyhow = "*"
axum = { version = "0.8", features = ["ws"] }
chrono = "*"
clap = { version = "4", features = ["derive"] }
crossterm = "0.28"
dirs = "*"
futures-util = "0.3"
ratatui = "0.29"
reqwest = { version = "0.12", default-features = false, features = ["json", "blocking"] }
serde = { version = "1", features = ["derive"] }
serde_json = "1"
shell-words = "1"
signal-hook = "0.3"
tokio = { version = "1", features = ["full"] }
tokio-tungstenite = "*"
toml = "*"
