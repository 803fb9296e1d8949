[package]
name = "socks5_core"
version = "0.1.0"
edition = "2021"
publish = false

[dependencies]
caret = "*"
futures = "0.3"
tokio = { version = "1", features = ["net", "io-util", "rt", "macros"] }
tokio-util = { version = "0.7", features = ["compat"] }
