[package]
name = "mcdata"
version = "0.1.0"
edition = "2021"
publish = false

[dependencies]
cesu8 = "1"
uuid = "1"
zeroize = "1"
