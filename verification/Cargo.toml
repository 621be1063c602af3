[package]
name = "hybrid_kyber"
version = "0.1.0"
edition = "2021"
publish = false

[dependencies]
chacha20poly1305 = "=0.10.1"
hkdf = "=0.12.4"
sha2 = "=0.10.9"
pqcrypto-kyber = "=0.8.1"
pqcrypto-traits = "=0.3.5"
rand = "=0.8.8"
x25519-dalek = { version = "=2.0.1", features = ["static_secrets"] }
tokio = { version = "=1.54.1", features = ["full"] }

[dev-dependencies]
postcard = { version = "=1.1.3", default-features = false, features = ["alloc"] }
