[package]
name = "external_mutator"
version = "0.1.0"
edition = "2021"
publish = false

[dependencies]
hex = "0.4"
log = "0.4"
env_logger = { version = "0.11", default-features = false }
nix = { version = "0.30", features = ["poll", "signal"] }
serde = { version = "1", features = ["derive"] }
