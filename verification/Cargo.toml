[package]
name = "deepseek-tui"
version = "0.1.0"
edition = "2021"
publish = false

[dependencies]
dirs = "*"
unicode-width = "*"
serde_json = "*"
ratatui = { version = "*", default-features = false }
tracing = "*"
