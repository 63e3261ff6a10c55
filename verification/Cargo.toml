[package]
name = "twoblade_client"
version = "0.1.0"
edition = "2021"
publish = false

[dependencies]
keyring = "*"
reqwest = { version = "*", default-features = false, features = ["cookies", "blocking"] }
serde = { version = "*", features = ["derive"] }
serde_json = "*"
dirs = "*"
