[package]
name = "liblog"
version = "0.1.0"
edition = "2021"
publish = false

[dependencies]
crc64 = "*"
cityhash-sys = "*"
tokio = { version = "1", features = ["fs", "io-util", "sync", "time", "rt", "macros"] }
thiserror = "1"
async-trait = "0.1"
futures-util = "0.3"
