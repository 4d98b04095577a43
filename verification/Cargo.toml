[package]
name = "backend"
version = "0.1.0"
edition = "2021"
publish = false

[dependencies]
argon2 = "*"
actix-web = "*"
actix-cors = "*"
serde = { version = "*", features = ["derive"] }
anyhow = "*"
