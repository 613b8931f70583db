[package]
name = "risk5"
version = "0.1.0"
edition = "2021"
publish = false

[dependencies]
elf = "*"
log = "0.4"
pretty_env_logger = "*"
lazy_static = "1"
serde = "1"
serde_derive = "1"
serde_json = "1"
bincode = "1"
flate2 = "1"
