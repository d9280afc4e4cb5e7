[package]
name = "redox_users"
version = "0.1.0"
edition = "2021"
publish = false

[dependencies]
argon2rs = { version = "0.2", default-features = false }
failure = "0.1"
rand = "0.4"
redox_syscall = "0.2"
