[package]
name = "pattrns"
version = "0.1.0"
edition = "2021"
publish = false

[dependencies]
crossbeam-channel = "0.5"
dashmap = "6"
lazy_static = "1"
log = "0.4"
mlua = { version = "0.10", features = ["lua54", "vendored"] }
panic-message = "0.3"
phonic = "*"
