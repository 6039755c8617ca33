[package]
name = "lbp_pair"
version = "0.1.0"
edition = "2021"
publish = false

[dependencies]
cosmwasm-std = "0.16"
cosmwasm-bignumber = "2.2"
substrate-fixed = "0.5"
primitive-types = "0.12"
uint = "0.9"
cw2 = "0.8"
cw20 = "0.8"
cw-storage-plus = "0.8"
terra-cosmwasm = "2.2"
protobuf = "2"
schemars = "0.8"
serde = { version = "1", default-features = false, features = ["derive"] }
