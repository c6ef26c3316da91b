[package]
name = "cfx-evm"
version = "0.1.0"
edition = "2021"
publish = false

[dependencies]
anyhow = "1"
byteorder = "1"
hex = "0.4"
keccak-hash = "*"
primitive-types = "*"
cfx-types = "0.1.0"
tokio = { version = "1", features = ["rt-multi-thread"] }
futures = "0.3"

[dev-dependencies]
rustc-hex = "2"
