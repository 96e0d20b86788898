[package]
name = "consensus"
version = "0.1.0"
edition = "2021"
publish = false

[dependencies]
sha2 = "*"
serde = { version = "*", features = ["derive"] }
serde_json = "*"
ssz_rs = "*"
bcs = "*"
