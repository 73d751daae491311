[package]
name = "minter"
version = "0.1.0"
edition = "2021"
publish = false

[dependencies]
cosmwasm-std = "1.0"
cw2 = "0.13"
cw721-base = { version = "0.13", features = ["library"] }
cw-utils = "0.13"
cw-storage-plus = "0.13"
url = "2"
serde = { version = "1", default-features = false, features = ["derive"] }
schemars = "0.8"
thiserror = "1"
