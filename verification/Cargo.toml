[package]
name = "crow"
version = "0.1.0"
edition = "2021"
publish = false

[dependencies]
fuzzy-matcher = "0.3"
clap = "*"
copypasta = "*"
crossterm = "0.25"
dialoguer = "*"
dirs = "*"
nanoid = "*"
serde = { version = "1", features = ["derive"] }
serde_json = "1"
shellexpand = "*"
tui = "0.19"
unicode-width = "*"
