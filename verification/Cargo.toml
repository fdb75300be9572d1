[package]
name = "optrand"
version = "0.1.0"
edition = "2021"
publish = false

[dependencies]
ark-bls12-381 = "0.4"
ark-ec = "0.4"
ark-ff = "0.4"
ark-serialize = "0.4"
ed25519-dalek = { version = "2", features = ["rand_core"] }
rand = "0.8"
sha2 = "0.10"
tokio = { version = "1", features = ["rt", "time", "macros", "sync"] }
tokio-util = { version = "0.7", features = ["time"] }
