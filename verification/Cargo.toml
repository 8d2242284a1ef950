[package]
name = "block_replay"
version = "0.1.0"
edition = "2021"
publish = false

[dependencies]
blst = "*"
ethereum_hashing = "*"
eth2_hashing = "*"
