[package]
name = "fnr"
version = "0.1.0"
edition = "2021"
publish = false

[dependencies]
regex = "*"
globset = "*"
anyhow = "*"
clap = { version = "*", features = ["derive"] }
colored = "*"
crossterm = "*"
ignore = "*"
