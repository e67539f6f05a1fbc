[package]
name = "handshake"
version = "0.1.0"
edition = "2021"
publish = false

[dependencies]
hex = "0.4"
log = "0.4"
serde_cbor = "0.11"
