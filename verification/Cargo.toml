[package]
name = "flick_effects"
version = "0.1.0"
edition = "2021"
publish = false

[dependencies]
rand = "0.8"
libc = "0.2"
serde = { version = "1", features = ["derive"] }
serde_json = "1"
