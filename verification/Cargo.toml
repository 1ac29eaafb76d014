[package]
name = "sanzu"
version = "0.1.0"
edition = "2021"
publish = false

[dependencies]
byteorder = "=1.5.0"
anyhow = "=1.0.104"
log = "=0.4.35"
env_logger = "=0.11.11"
serde = { version = "=1.0.229", features = ["derive"] }
toml = "=1.1.8"
clap = { version = "=4.6.7", features = ["derive"] }
prost = "=0.14.4"
rayon = "=1.12.0"
embedded-graphics = "*"
x509-parser = "*"
