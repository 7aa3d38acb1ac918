[package]
name = "bsondump"
version = "0.1.0"
edition = "2021"
publish = false

[dependencies]
bson = { version = "=3.1.0", features = ["serde", "serde_json-1"] }
serde = "=1.0.229"
serde_json = "=1.0.151"
chrono = "=0.4.45"
clap = { version = "=4.6.7", features = ["derive"] }
