[package]
name = "errorstash"
version = "0.3.1"
edition = "2021"
publish = false

[dev-dependencies]
anyhow = "1"
eyre = "0.6"
