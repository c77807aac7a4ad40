[package]
name = "feverdream_crypto"
version = "0.1.0"
edition = "2021"
publish = false

[dependencies]
hex = "*"
serde = { version = "*", features = ["derive"] }
serde_json = "*"
uniffi = "*"
vodozemac = "*"
