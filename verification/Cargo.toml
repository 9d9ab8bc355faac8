[package]
name = "sim_engine"
version = "0.1.0"
edition = "2021"
publish = false

[dependencies]
csv = "1"
rand = "0.8"
uuid = { version = "1", features = ["v4"] }
serde_json = "1"
