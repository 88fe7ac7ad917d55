[package]
name = "certitude"
version = "0.1.0"
edition = "2021"
publish = false

[dependencies]
libc = "0.2"
winapi = "0.2.8"
crypt32-sys = "0.2.0"
security-framework = "2.11.1"
core-foundation = "0.9.4"
