[package]
name = "coursegen2"
version = "0.1.0"
edition = "2021"
publish = false

[dependencies]
atomic-write-file = "=0.3.1"
chrono = { version = "=0.4.45", features = ["serde"] }
clap = "=4.6.7"
serde = { version = "=1.0.229", features = ["derive"] }
tera = "=1.20.1"
toml = "=1.1.8"
