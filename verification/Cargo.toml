[package]
name = "umee_cosmwasm"
version = "0.1.0"
edition = "2021"
publish = false

[dependencies]
cosmwasm-std = "*"
cw2 = "*"
schemars = "*"
serde = { version = "*", features = ["derive"] }
