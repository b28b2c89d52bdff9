[package]
name = "chain_storage"
version = "0.1.0"
edition = "2021"
publish = false

[dependencies]
rocksdb = "*"
serde = "*"
serde_derive = "*"
