[package]
name = "powerwatch"
version = "0.1.0"
edition = "2021"
publish = false

[dependencies]
flume = "*"
futures-core = "*"
block2 = "*"
dispatch2 = "*"
objc2-io-kit = "*"
