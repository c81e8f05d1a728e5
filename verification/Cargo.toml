[package]
name = "auction_house"
version = "0.1.0"
edition = "2021"
publish = false

[dependencies]
argon2 = "=0.6.0"
hmac = "=0.12.1"
jwt = "=0.16.0"
sha2 = "=0.10.9"
clap = { version = "=4.6.7", features = ["derive"] }
