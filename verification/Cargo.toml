[package]
name = "cw1155_ledger"
version = "0.1.0"
edition = "2021"
publish = false

[dependencies]
cosmwasm-std = "1.5"
cw-storage-plus = "1.2"
cw721 = "0.18"
cw2 = "1.1"
cw-ownable = "0.5"
serde = { version = "1", features = ["derive"] }
