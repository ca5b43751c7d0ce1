[package]
name = "orchestrion_js"
version = "0.1.0"
edition = "2021"
publish = false

[dependencies]
nodejs-semver = "*"
serde = { version = "*", features = ["derive"] }
serde_yaml = "*"
