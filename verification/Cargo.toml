[package]
name = "wasi_socket"
version = "0.1.0"
edition = "2021"
publish = false

[dependencies]
dns-parser = "0.8"
rand = "0.8"
libc = "0.2"
tokio = { version = "1", default-features = false, features = ["io-util"] }
