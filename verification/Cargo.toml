[package]
name = "sakd"
version = "0.1.0"
edition = "2021"
publish = false

[dependencies]
anyhow = "*"
chrono = "*"
clap = { version = "*", features = ["derive"] }
colored = "*"
crossterm = "*"
dirs = "*"
inquire = "*"
ratatui = "*"
rusqlite = { version = "*", features = ["bundled"] }
unicode-width = "*"
