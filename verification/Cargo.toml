[package]
name = "zkpipeline"
version = "0.1.0"
edition = "2021"
publish = false

[dependencies]
stwo = "*"
stwo-constraint-framework = "*"
bincode = "1"
serde = { version = "*", features = ["derive"] }
serde_json = "*"
num-traits = "*"
itertools = "*"
