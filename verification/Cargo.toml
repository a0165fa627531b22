[package]
name = "diskscry"
version = "0.1.0"
edition = "2021"
publish = false

[dependencies]
clap = { version = "4", features = ["derive"] }
serde = { version = "1", features = ["derive"] }
serde_json = "1"
thiserror = "2"
crossterm = "0.28"
ratatui = "0.29"
core-foundation = "0.10"
core-foundation-sys = "0.8"
