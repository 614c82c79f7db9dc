[package]
name = "titan_core"
version = "0.1.0"
edition = "2021"
publish = false

[dependencies]
libc = "0.2"
rustc-hash = "2"
socket2 = "0.5"
zerocopy = { version = "0.8", features = ["derive"] }
