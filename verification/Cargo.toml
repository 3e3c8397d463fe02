[package]
name = "endian_stream"
version = "0.1.0"
edition = "2021"
publish = false

[dependencies]
tokio = { version = "1", default-features = false, features = ["io-util"] }

[dev-dependencies]
byteorder = "1"
