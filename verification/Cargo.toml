[package]
name = "cipher_dispatch"
version = "0.1.0"
edition = "2021"
publish = false

[dependencies]
cryptoys = "=1.2.1"
clap = { version = "=4.6.7", features = ["derive"] }
