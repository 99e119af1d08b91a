[package]
name = "ssgen"
version = "0.1.0"
edition = "2021"
publish = false

[dependencies]
serde = "*"
serde_yaml = "*"
indicatif = "*"
clap = { version = "*", features = ["derive"] }
glob = "*"
pathdiff = "*"
colored = "*"
slog = "*"
slog-async = "*"
