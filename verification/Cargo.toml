[package]
name = "liquidation_queue"
version = "0.1.0"
edition = "2021"
publish = false

[dependencies]
cosmwasm-bignumber = "=1.0.0"
cosmwasm-std = "=0.10.1"
moneymarket = "=0.2.0"
schemars = "=0.7.6"
serde = { version = "=1.0.229", default-features = false, features = ["derive"] }
