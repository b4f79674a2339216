[package]
name = "fulfilment_core"
version = "0.1.0"
edition = "2021"
publish = false

[dependencies]
hex = "*"
sha2 = "*"
uuid = { version = "*", features = ["v4"] }
