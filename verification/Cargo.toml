[package]
name = "srdwm"
version = "0.1.0"
edition = "2021"
publish = false

[dependencies]
regex = "1"
mlua = { version = "0.9", features = ["lua54", "vendored"] }
libc = "0.2"
log = "0.4"
thiserror = "1"
