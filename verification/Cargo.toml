[package]
name = "fvm"
version = "0.1.0"
edition = "2021"
publish = false

[dependencies]
blake2 = "0.10"
sha2 = "0.10"
