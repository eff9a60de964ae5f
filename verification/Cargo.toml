[package]
name = "dbsdk_rs"
version = "0.1.0"
edition = "2021"
publish = false

[dependencies]
bitmask = "0.5"
byteorder = "=1.5.0"
lazy_static = "=1.5.1"
