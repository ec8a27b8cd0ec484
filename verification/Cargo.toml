[package]
name = "conv_engine"
version = "0.1.0"
edition = "2021"
publish = false

[dependencies]
burn-tensor = { version = "=0.15.0", default-features = false, features = ["std"] }
cubecl = "=0.3.0"
serde = { version = "1", features = ["derive"] }
