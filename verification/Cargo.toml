[package]
name = "umbra"
version = "0.1.0"
edition = "2021"
publish = false

[dependencies]
sha3 = "*"
hex = "*"
rand = "*"
serde = { version = "*", features = ["derive"] }
bincode = "1"
