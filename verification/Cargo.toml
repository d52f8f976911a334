[package]
name = "clever_logs"
version = "0.1.0"
edition = "2021"
publish = false

[dependencies]
anyhow = "1"
async-std = { version = "1", features = ["attributes"] }
base64 = "=0.13.1"
clap = "2"
directories = "*"
rand = "=0.8.8"
ring = "=0.16.20"
serde_json = "=1.0.151"
surf = { version = "2", default-features = false, features = ["h1-client-rustls"] }
term = "0.7"
