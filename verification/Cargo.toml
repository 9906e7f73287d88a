[package]
name = "property_store"
version = "0.1.0"
edition = "2021"

[dependencies]
ic-stable-structures = "*"
candid = "*"
ic-cdk = "*"
serde = { version = "*", features = ["derive"] }
