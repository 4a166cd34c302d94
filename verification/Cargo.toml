[package]
name = "powda_core"
version = "0.1.0"
edition = "2021"
publish = false

[dependencies]
argon2 = "*"
base64 = "*"
chacha20poly1305 = "*"
clap = { version = "*", features = ["derive"] }
rand = "0.8"
rpassword = "*"
serde = { version = "*", features = ["derive"] }
serde_json = "*"
sha2 = "*"
