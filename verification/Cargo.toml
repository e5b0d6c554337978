[package]
name = "nivalis"
version = "0.1.0"
edition = "2021"
publish = false

[dependencies]
aes-gcm = "*"
chacha20poly1305 = "*"
blake2 = "*"
hmac = "*"
sha2 = "*"
x25519-dalek = { version = "*", features = ["static_secrets"] }
cx448 = "*"
rand_core = "*"
getrandom = "*"
zeroize = "*"
