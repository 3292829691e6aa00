[package]
name = "cyproto"
version = "0.1.0"
edition = "2021"
publish = false

[dependencies]
cobs = { version = "=0.3.0", default-features = false }
heapless = "=0.7.17"
rand = "=0.8.8"
clap = { version = "=4.6.7", features = ["derive"] }
