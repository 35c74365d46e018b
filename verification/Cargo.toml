[package]
name = "onion_gen"
version = "0.1.0"
edition = "2021"
publish = false

[dependencies]
clap = { version = "4", features = ["derive"] }
crossbeam-channel = "*"
data-encoding = "*"
ed25519-dalek = { version = "2", features = ["rand_core", "hazmat"] }
num_cpus = "*"
rand = "0.8"
regex = "*"
sha2 = "*"
sha3 = "*"
