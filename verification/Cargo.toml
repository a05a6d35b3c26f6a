[package]
name = "routing_core"
version = "0.1.0"
edition = "2021"
publish = false

[dependencies]
sha2 = "0.10"
hmac = "0.12"
url = "2"
zeroize = "1"
thiserror = "1"
