[package]
name = "bevyhub_api"
version = "0.1.0"
edition = "2021"
publish = false

[dependencies]
anyhow = "*"
cargo-manifest = "*"
flate2 = "*"
rand = "*"
semver = "*"
serde = { version = "*", features = ["derive"] }
serde_json = "*"
tar = "*"
toml = "*"
