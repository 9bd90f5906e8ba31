[package]
name = "sandbox"
version = "0.1.0"
edition = "2021"
publish = false

[dependencies]
libc = "=0.2.191"
log = "=0.4.34"
pretty_env_logger = "=0.5.0"
rustix = { version = "1", features = ["thread"] }
signal-hook = "=0.3.18"
