[package]
name = "auth_core"
version = "0.1.0"
edition = "2021"
publish = false

[dependencies]
jsonwebtoken = { version = "=11.1.0", default-features = false, features = ["rust_crypto"] }
