[package]
name = "eolib"
version = "0.1.0"
edition = "2021"
publish = false

[dependencies]
bytes = "1"
encoding_rs = "0.8"
rand = "0.8"
thiserror = "1"
