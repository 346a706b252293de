[package]
name = "noise_handshake"
version = "0.1.0"
edition = "2021"
publish = false

[dependencies]
x25519-dalek = "2"
chacha20poly1305 = "0.10"
aes-gcm = "0.10"
sha2 = "0.10"
blake2 = "0.10"
rand = "0.8"

[dev-dependencies]
hex = "0.4"
