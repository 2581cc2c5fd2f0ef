[package]
name = "tdlib_rs"
version = "0.1.0"
edition = "2021"
publish = false

[dependencies]
bytes = "1"
crc32fast = "1"
derive_more = "0.99"
futures-util = "0.3"
lazy_static = "1"
openssl = "0.10"
proc-macro2 = "1"
quote = "1"
rand = "0.8"
syn = { version = "1", features = ["full"] }
tokio = { version = "1", features = ["net", "io-util"] }
