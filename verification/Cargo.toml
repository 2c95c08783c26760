[package]
name = "random_place"
version = "0.1.0"
edition = "2021"
publish = false

[dependencies]
anyhow = "=1.0.104"
rand = "=0.9.5"
serde-hjson = "=1.1.0"
serde_json = "=1.0.154"
spin-sdk = "=5.2.0"
