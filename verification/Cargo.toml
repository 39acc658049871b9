[package]
name = "vrf"
version = "0.1.0"
edition = "2021"
publish = false

[dependencies]
curve25519-dalek = "4.1"
sha2 = "0.10"
zeroize = "1"
jni = "0.19"
