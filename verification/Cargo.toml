[package]
name = "wasabi"
version = "0.1.0"
edition = "2021"
publish = false

[dependencies]
clap = { version = "=4.6.7", features = ["derive"] }
anyhow = "=1.0.104"
bootloader = "0.11"
nix = { version = "0.29", features = ["term"] }
cargo_toml = "0.20"
