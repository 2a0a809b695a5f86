[package]
name = "battleship"
version = "0.1.0"
edition = "2021"
publish = false

[dependencies]
base64 = "=0.21.7"
chacha20poly1305 = "=0.10.1"
hkdf = "=0.12.4"
hmac = "=0.12.1"
minicbor-ser = "=0.2.0"
sha2 = "=0.10.9"
