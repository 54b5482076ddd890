[package]
name = "staking"
version = "0.1.0"
edition = "2021"
publish = false

[dependencies]
gstd = "=1.10.0"
gmeta = { version = "=1.7.1", features = ["codegen"] }
parity-scale-codec = { version = "=3.7.5", default-features = false, features = ["derive"] }
scale-info = { version = "=2.11.6", default-features = false, features = ["derive"] }
