[package]
name = "k_hot"
version = "0.1.0"
edition = "2021"
publish = false

[dependencies]
curve25519-dalek = "3"
merlin = "3"
rand = "0.7"
subtle = "2"
serde = "1"
