[package]
name = "zcash_sighash"
version = "0.1.0"
edition = "2021"
publish = false

[dependencies]
blake2-rfc = "0.2.18"
byteorder = "1"
