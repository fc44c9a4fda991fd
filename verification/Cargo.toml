[package]
name = "substrate_primitives"
version = "0.1.0"
edition = "2021"
publish = false

[dependencies]
hex = "=0.4.3"
num-traits = "=0.2.19"
parity-scale-codec = { version = "=3.7.5", features = ["derive"] }
scale-info = { version = "2", features = ["derive"] }
serde = { version = "=1.0.229", features = ["derive"] }
