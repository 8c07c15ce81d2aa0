[package]
name = "garbled_twopc"
version = "0.1.0"
edition = "2021"
publish = false

[dependencies]
aes = "=0.8.4"
rand = "=0.8.8"
serde_json = "=1.0.151"
