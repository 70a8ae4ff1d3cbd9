[package]
name = "cruler"
version = "0.1.0"
edition = "2021"
publish = false

[dependencies]
regex = "1"
hyper = "0.11"
futures = "0.1"
tokio-core = "0.1"
toml = "0.4"
serde = "1"
serde_derive = "1"
log = "0.4"
libc = "0.2"
