[package]
name = "ibc_counter"
version = "0.1.0"
edition = "2021"
publish = false

[dependencies]
cosmwasm-schema = "1.5"
cosmwasm-std = { version = "1.5", features = ["ibc3"] }
cw-storage-plus = "1.2"
