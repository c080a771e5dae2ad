[package]
name = "agent_matrix"
version = "0.1.0"
edition = "2021"
publish = false

[dependencies]
aes-gcm = "*"
blake3 = "*"
rand = "*"
tokio = { version = "*", features = ["rt-multi-thread", "macros", "sync", "process"] }
