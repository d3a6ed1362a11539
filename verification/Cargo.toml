[package]
name = "deck_report"
version = "0.1.0"
edition = "2021"
publish = false

[dependencies]
anyhow = "*"
chrono = "*"
clap = { version = "*", features = ["derive"] }
num-format = "*"
rusqlite = { version = "*", features = ["bundled"] }
