[package]
name = "flatlite"
version = "0.1.0"
edition = "2021"
publish = false

[dependencies]
kdl = "6"
rusqlite = { version = "0.32", features = ["bundled"] }
ratatui = "0.29"
csv = "1"
eyre = "0.6"
clap = { version = "4", features = ["derive"] }
