[package]
name = "quiz_auth"
version = "0.1.0"
edition = "2021"
publish = false

[dependencies]
argon2 = "0.5"
base64 = "0.22"
rand = "0.8"
rand_chacha = "0.3"
redis = "*"
