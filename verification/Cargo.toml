[package]
name = "misato_security"
version = "0.1.0"
edition = "2021"
publish = false

[dependencies]
rust-argon2 = "*"
rand = "0.8"
serde = { version = "1", features = ["derive"] }
