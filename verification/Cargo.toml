[package]
name = "typed_kv"
version = "0.1.0"
edition = "2021"
publish = false

[dependencies]
bincode = "1"
lmdb-rs = "0.7"
serde = { version = "1", features = ["derive"] }
