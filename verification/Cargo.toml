[package]
name = "mi_thermald"
version = "0.1.0"
edition = "2021"
publish = false

[dependencies]
aes = "0.8"
cbc = "0.1"
fastrand = "2"
libc = "0.2"
serde = { version = "1", features = ["derive"] }
serde_json = "1"
tiny_http = "0.12"
