[package]
name = "soundboard"
version = "0.1.0"
edition = "2021"
publish = false

[dependencies]
miniaudio = "*"
winapi = { version = "0.3", features = ["winuser"] }
libc = "0.2"
libloading = "*"
