[package]
name = "levana_perps"
version = "0.1.0"
edition = "2021"
publish = false

[dependencies]
cosmwasm-std = "=2.3.6"
cw-storage-plus = "=2.0.0"
serde = { version = "=1.0.229", features = ["derive"] }
anyhow = "=1.0.104"
pyth-sdk-cw = "=1.2.0"
cw-utils = "2"
cw2 = "2"
semver = "1"
prost = "*"
