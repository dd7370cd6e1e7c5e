[package]
name = "loyalty_core"
version = "0.1.0"
edition = "2021"
publish = false

[dependencies]
curve25519-dalek = { version = "4", features = ["rand_core", "digest"] }
ed25519-dalek = { version = "2", features = ["rand_core"] }
sha2 = "0.10"
aes-gcm = "0.10"
rand = "0.8"
rand_core = { version = "0.6", features = ["getrandom"] }
rs_merkle = "1"
