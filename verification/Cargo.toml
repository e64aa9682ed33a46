[package]
name = "nettest"
version = "0.1.0"
edition = "2021"
publish = false

[dependencies]
blake2 = "0.10"
byteorder = "1"
digest = "0.10"
getopts = "0.2"
time = "0.1"
