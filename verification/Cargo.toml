[package]
name = "profanity"
version = "0.1.0"
edition = "2021"
publish = false

[dependencies]
clap = { version = "4", features = ["derive"] }
console = "0.15"
ocl = "0.19"
secp256k1 = { version = "0.27", features = ["rand-std"] }
sha3 = "0.10"
