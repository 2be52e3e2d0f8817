[package]
name = "fractal"
version = "0.1.0"
edition = "2021"
publish = false

[dependencies]
num-complex = "*"
png = "*"
ron = "*"
serde = { version = "*", features = ["derive"] }
