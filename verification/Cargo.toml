[package]
name = "chgops"
version = "0.1.0"
edition = "2021"
publish = false

[dependencies]
base64 = "=0.23.1"
chrono = "=0.4.45"
chrono-humanize = "=0.2.3"
clap = "=4.6.7"
colored = "=3.1.1"
regex = "=1.13.1"
serde = { version = "=1.0.229", features = ["derive"] }
serde_json = "=1.0.151"
serde_yaml = "=0.9.34"
tera = "=1.20.1"
yaml-rust2 = "=0.13.0"
