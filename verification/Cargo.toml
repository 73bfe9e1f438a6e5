[package]
name = "wasm_js"
version = "0.1.0"
edition = "2021"
publish = false

[dependencies]
anyhow = "1"
base64 = "0.22"
binary-install = "0.4"
cargo_metadata = "0.18"
clap = { version = "4", features = ["derive"] }
env_logger = "0.11"
flate2 = "1"
human-panic = "1"
log = "0.4"
path-clean = "1"
semver = "1"
serde = { version = "1", features = ["derive"] }
serde_ignored = "0.1"
strsim = "0.11"
toml = "0.8"
