[package]
name = "carbon"
version = "0.1.0"
edition = "2021"
publish = false

[dependencies]
httparse = "1"
regex = "1"
chrono = "0.4"
ansi_term = "0.12"
nix = { version = "0.29", features = ["event"] }
