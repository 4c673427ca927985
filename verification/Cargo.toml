[package]
name = "ycard"
version = "0.1.0"
edition = "2021"
publish = false

[dependencies]
serde = { version = "1", features = ["derive"] }
serde_json = "1"
serde_yaml = "0.9"
unicode-normalization = "0.1"
clap = { version = "4", features = ["derive"] }
