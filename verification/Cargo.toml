[package]
name = "swaprouter"
version = "0.1.0"
edition = "2021"
publish = false

[dependencies]
cosmwasm-std = "1"
osmo-bindings = "*"
osmosis-std = "*"
schemars = "*"
serde = { version = "*", features = ["derive"] }
