[package]
name = "pbft_log"
version = "0.1.0"
edition = "2021"
publish = false

[dependencies]
hex = "0.3"
itertools = "0.7"
sawtooth-sdk = "*"
