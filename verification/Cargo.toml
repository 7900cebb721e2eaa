[package]
name = "pea_2_pea"
version = "1.0.0"
edition = "2021"
publish = false

[dependencies]
aes = "0.8"
cbc = { version = "0.1", features = ["alloc"] }
chrono = "0.4"
clap = { version = "4", features = ["derive"] }
colored = "*"
hmac = "0.12"
libc = "0.2"
orx-concurrent-vec = "*"
pbkdf2 = "0.12"
rand = "0.9"
sha2 = "0.10"
smol = "2"
tappers = "*"
