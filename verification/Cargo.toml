[package]
name = "huelog"
version = "0.1.0"
edition = "2021"
publish = false

[dependencies]
chrono = "=0.4.45"
clap = { version = "=4.6.7", features = ["derive"] }
hueclient = "=0.3.10"
indicatif = "=0.18.6"
reqwest = { version = "=0.12.28", default-features = false, features = ["blocking", "json"] }
serde = { version = "=1.0.229", features = ["derive"] }
spa = "=0.5.1"
url = "=2.5.8"

[dev-dependencies]
csv = "=1.4.0"
