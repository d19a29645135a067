[package]
name = "connect"
version = "0.1.0"
edition = "2021"
publish = false

[dependencies]
bytes = "1"
async-std = "1"
futures = "0.3"
log = "0.4"
anyhow = "1"
async-tls = "0.11"
rustls = "0.19"
