[package]
name = "tda"
version = "0.1.0"
edition = "2021"
publish = false

[dependencies]
ursa = "=0.3.6"
blake3 = { version = "=1.8.7", features = ["pure"] }
tokio = { version = "=1.53.2", features = ["full"] }
clap = "=4.6.7"
serde = { version = "=1.0.229", features = ["derive"] }
bincode = "=1.3.3"
lmdb = "=0.8.0"
