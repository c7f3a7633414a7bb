[package]
name = "game"
version = "0.1.0"
edition = "2021"
publish = false

[dependencies]
anyhow = "*"
bmp = "*"
clap = { version = "*", features = ["derive"] }
crossterm = "*"
ratatui = "*"
thiserror = "*"
tracing = "*"
tracing-subscriber = "*"
