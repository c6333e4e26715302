[package]
name = "health_factor"
version = "0.1.0"
edition = "2021"
publish = false

[dependencies]
anchor-lang = { version = "0.31", features = ["init-if-needed"] }
ethereum-types = { version = "=0.16.0", default-features = false }
