[package]
name = "pomodomate"
version = "0.1.0"
edition = "2021"
publish = false

[dependencies]
anyhow = "*"
chrono = "*"
clap = { version = "*", features = ["derive"] }
crossterm = "*"
dirs = "*"
notify-rust = "*"
ratatui = "*"
serde = { version = "*", features = ["derive"] }
serde_json = "*"
toml = "*"
uuid = { version = "*", features = ["v4"] }
wayland-client = "*"
wayland-protocols = { version = "*", features = ["client", "staging"] }

[dev-dependencies]
unicode-width = "*"
