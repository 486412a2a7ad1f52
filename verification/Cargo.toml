[package]
name = "game_catalog"
version = "0.1.0"
edition = "2021"
publish = false

[dependencies]
uuid = { version = "*", features = ["v4"] }
chrono = "*"
argon2 = "*"
serde = { version = "*", features = ["derive"] }
serde_json = "*"

[dev-dependencies]
regex = "*"
