[package]
name = "rust_evc"
version = "0.1.0"
edition = "2021"
publish = false

[dependencies]
rand = "=0.10.3"
serde = { version = "*", features = ["derive"] }
toml = "*"
num-bigint = "=0.5.1"
num-integer = "=0.1.47"
astro-float = "=0.9.6"
