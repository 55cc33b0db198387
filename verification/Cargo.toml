[package]
name = "cargo_registry"
version = "0.1.0"
edition = "2021"
publish = false

[dependencies]
semver = "0.9"
license-exprs = "*"
openssl = "0.10"
hex = "0.4"
base64 = "0.13"
serde = { version = "1", features = ["derive"] }
serde_json = "1"
comrak = "*"
ammonia = "*"
dotenv = "0.15"
