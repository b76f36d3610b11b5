[package]
name = "composition"
version = "0.1.0"
edition = "2021"
publish = false

[dependencies]
radix64 = "*"
serde = { version = "*", features = ["derive"] }
toml = "*"
