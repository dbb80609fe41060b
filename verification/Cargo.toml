[package]
name = "soroban_env_host"
version = "0.1.0"
edition = "2021"
publish = false

[dependencies]
arbitrary = "1"
honggfuzz = "*"

[dev-dependencies]
rand = "0.8"
