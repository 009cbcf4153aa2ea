[package]
name = "sophon"
version = "0.1.0"
edition = "2021"
publish = false

[dependencies]
bitcoincore-rpc = "*"

[dev-dependencies]
serde_json = "*"
