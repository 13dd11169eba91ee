[package]
name = "wallet_core"
version = "0.1.0"
edition = "2021"
publish = false

[dependencies]
ethers = { version = "2.0", default-features = false }
web3-keystore = "0.5"
coins-bip32 = "0.8"
rand = "0.8"
serde = { version = "1", features = ["derive"] }
serde_json = "1"
tokio = { version = "1", features = ["rt-multi-thread", "macros"] }
reqwest = { version = "0.11", default-features = false, features = ["json"] }
lazy_static = "1"
dialoguer = { version = "0.11", default-features = false }
colored = "2"
rpassword = "7"
