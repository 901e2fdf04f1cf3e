[package]
name = "reratui"
version = "0.1.0"
edition = "2021"
publish = false

[dependencies]
regex = "1"
ratatui = "*"
crossterm = "*"
tokio = { version = "1", features = ["full"] }
anyhow = "1"
