[package]
name = "pivx_promos"
version = "0.1.0"
edition = "2021"
publish = false

[dependencies]
base58 = "0.2"
bitcoin_hashes = "*"
ripemd = "0.1"
secp256k1 = { version = "0.28", features = ["rand-std"] }
pivx_rpc_rs = "*"
