[package]
name = "release_kthx"
version = "0.1.0"
edition = "2021"
publish = false

[dependencies]
semver = "=1.0.28"
toml = "=0.8.23"
toml_edit = "=0.22.27"
serde = { version = "=1.0.229", features = ["derive"] }
serde_json = "=1.0.154"
anyhow = "=1.0.104"
clap = { version = "=4.6.7", features = ["derive"] }
