[package]
name = "awdy"
version = "0.1.0"
edition = "2021"
publish = false

[dependencies]
anyhow = "*"
clap = "*"
ratatui = "*"
rusqlite = { version = "*", features = ["bundled"] }
tui-widget-list = "*"
