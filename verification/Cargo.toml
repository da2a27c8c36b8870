[package]
name = "state_migrations"
version = "0.1.0"
edition = "2021"
publish = false

[dependencies]
data-encoding = "*"
regex = "*"
serde = { version = "*", features = ["derive"] }
serde_json = "*"
