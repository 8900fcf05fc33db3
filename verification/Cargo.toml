[package]
name = "packet_storm"
version = "0.1.0"
edition = "2021"
publish = false

[dependencies]
anyhow = "1"
fs-err = "*"
