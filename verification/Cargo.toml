[package]
name = "tuf"
version = "0.1.0"
edition = "2021"
publish = false

[dependencies]
chrono = "0.4"
futures-io = "0.3"
futures-util = { version = "0.3", features = ["io"] }
log = "0.4"
