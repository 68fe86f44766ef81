[package]
name = "elaine"
version = "0.1.0"
edition = "2021"
publish = false

[dependencies]
clap = { version = "4", features = ["derive"] }
colored = "2"
serde = { version = "1", features = ["derive"] }
serde_yaml = "0.9"
urlencoding = "2"
uuid = { version = "1", features = ["v4"] }
walkdir = "2"
