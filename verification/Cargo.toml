[package]
name = "quick"
version = "0.1.0"
edition = "2021"
publish = false

[dependencies]
memchr = "2"
quick-xml = "0.36"
simdutf8 = "0.1"
serde = { version = "1", features = ["derive"] }
serde_json = "1"
toml = "0.8"
bumpalo = "3"
taffy = "0.5"
fontdue = "0.9"
env_logger = "0.11"
mimalloc = "0.1"
