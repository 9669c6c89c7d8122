[package]
name = "mdsite"
version = "0.1.0"
edition = "2021"
publish = false

[dependencies]
anyhow = "1"
pulldown-cmark = "*"
serde = { version = "1", features = ["derive"] }
serde_yaml = "0.9"
tera = "1"
toml = "*"
walkdir = "2"
