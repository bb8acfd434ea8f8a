[package]
name = "gary"
version = "0.1.0"
edition = "2021"
publish = false

[dependencies]
curve25519-dalek = "=4.1.3"
elastic-elgamal = "=0.3.1"
rand = "=0.8.5"
thiserror = "*"
tokio = { version = "*", features = ["rt", "sync", "macros", "time"] }
