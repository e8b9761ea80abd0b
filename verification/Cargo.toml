[package]
name = "blood_compat"
version = "0.1.0"
edition = "2021"
publish = false

[dependencies]
rand = "0.8"
num-bigint = { version = "0.4", features = ["rand", "serde"] }
miller_rabin = "*"
serde = { version = "1", features = ["derive"] }
serde_json = "1"
