[package]
name = "chatterbook"
version = "0.1.0"
edition = "2021"
publish = false

[dependencies]
anyhow = "*"
chrono = "*"
clap = { version = "*", features = ["derive"] }
pulldown-cmark = "*"
serde = { version = "*", features = ["derive"] }
serde_json = "*"
