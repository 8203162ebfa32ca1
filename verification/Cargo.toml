[package]
name = "monopoly"
version = "0.1.0"
edition = "2021"
publish = false

[dependencies]
rand = "0.9"
crossterm = "*"
ratatui = "*"
ratatui-notifications = "*"
tui-big-text = "*"
color-eyre = "*"
dirs = "*"
serde = { version = "1", features = ["derive"] }
serde_json = "1"
image = { version = "*", default-features = false, features = ["gif"] }
