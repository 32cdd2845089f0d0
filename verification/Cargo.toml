[package]
name = "fistforce"
version = "0.1.0"
edition = "2021"
publish = false

[dependencies]
serde = { version = "1", features = ["derive"] }
ron = "*"
rand = "*"
noise = "*"
