[package]
name = "wsl_hello"
version = "0.1.0"
edition = "2021"
publish = false

[dependencies]
getrandom = "=0.3.4"
libc = "=0.2.191"
rsa = "=0.9.10"
sha2 = { version = "=0.10.9", features = ["oid"] }
windows = { version = "0.58", features = ["Foundation", "Security_Credentials", "Security_Cryptography", "Storage_Streams"] }

[dev-dependencies]
rand = "=0.8.8"
