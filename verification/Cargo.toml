[package]
name = "yubihsm_client"
version = "0.1.0"
edition = "2021"
publish = false

[dependencies]
aes = "=0.8.4"
cmac = "=0.7.2"
getrandom = "=0.2.17"
serde = { version = "=1.0.229", features = ["derive"] }
sha2 = "=0.10.9"

[dev-dependencies]
cbc = "=0.1.2"
