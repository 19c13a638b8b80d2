[package]
name = "hot_or_not"
version = "0.1.0"
edition = "2021"
publish = false

[dependencies]
candid = "0.10"
ciborium = "0.2"
ic-cdk = "0.12"
ic-stable-structures = "0.6"
ic-test-state-machine-client = "3"
serde = { version = "1", features = ["derive"] }
