[package]
name = "unify"
version = "0.1.0"
edition = "2021"
publish = false

[dependencies]
anyhow = "1"
bytesize = "*"
clap = { version = "4", features = ["derive"] }
content_inspector = "*"
dirs = "*"
ignore = "*"
indicatif = "*"
serde = { version = "1", features = ["derive"] }
serde_json = "1"
toml = "*"
