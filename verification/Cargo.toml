[package]
name = "solver_log"
version = "0.1.0"
edition = "2021"
publish = false

[dependencies]
regex = "=1.13.1"
serde_json = "=1.0.154"
reqwest = { version = "0.12", default-features = false, features = ["json", "default-tls"] }
