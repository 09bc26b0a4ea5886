[package]
name = "realworld_core"
version = "0.1.0"
edition = "2021"
publish = false

[dependencies]
jsonwebtoken = { version = "=11.1.0", features = ["rust_crypto"] }
serde_json = "=1.0.151"
argon2 = "=0.6.0"
regex = "=1.13.1"
