[package]
name = "byte_watcher"
version = "0.1.0"
edition = "2021"
publish = false

[dependencies]
memchr = "2"
crc16 = "0.4"
hex = "0.4"
tokio = { version = "1", features = ["rt", "rt-multi-thread", "macros", "sync", "io-util", "time"] }
tokio-serial = { version = "5.4", default-features = false }
futures = "0.3"
