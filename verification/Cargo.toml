[package]
name = "valence_services"
version = "0.1.0"
edition = "2021"
publish = false

[dependencies]
cosmwasm-std = { version = "=1.5.11", features = ["stargate"] }
cosmwasm-schema = "=1.5.11"
cw-storage-plus = "=1.2.0"
cw-utils = "=1.0.3"
cw2 = "=1.1.2"
serde = { version = "=1.0.229", features = ["derive"] }
thiserror = "=1.0.69"
astroport = "=3.12.2"
