[package]
name = "smart_home"
version = "0.1.0"
edition = "2021"
publish = false

[dependencies]
atomic_float = "*"
thiserror = "*"
tokio = { version = "*", features = ["net", "rt", "rt-multi-thread", "io-util", "time", "macros"] }
