[package]
name = "vanity"
version = "0.1.0"
edition = "2021"
publish = false

[dependencies]
bitcoin = { version = "=0.32.102", features = ["rand-std"] }
clap = "=4.6.7"
indicatif = "=0.17.11"
num_cpus = "=1.17.0"
rayon = "=1.12.0"
regex = "=1.13.1"
secp256k1 = { version = "=0.29.1", features = ["global-context", "rand-std"] }
serde_json = "=1.0.154"
