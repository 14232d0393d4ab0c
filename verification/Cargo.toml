[package]
name = "ic_response_verification"
version = "0.1.0"
edition = "2021"
publish = false

[dependencies]
http = "*"
ic-representation-independent-hash = "*"
rand = "*"
rand_chacha = "*"

[dev-dependencies]
hex = "*"
ic-certification = "*"
