[package]
name = "domain_checker"
version = "0.1.0"
edition = "2021"
publish = false

[dependencies]
lazy_static = "=1.5.1"
serde_json = "=1.0.154"

[dev-dependencies]
regex = "=1.13.1"
serde = "=1.0.229"
