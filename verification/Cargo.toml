[package]
name = "codstts"
version = "0.1.0"
edition = "2021"
publish = false

[dependencies]
clap = { version = "*", features = ["derive"] }
colored = "*"
ignore = "*"
indicatif = "*"
serde = { version = "*", features = ["derive"] }
thiserror = "*"
toml = "*"
