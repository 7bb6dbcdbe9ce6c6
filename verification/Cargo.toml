[package]
name = "markov_bot"
version = "0.1.0"
edition = "2021"
publish = false

[dependencies]
rand = "0.8"
regex = "1"
serde = { version = "1", features = ["derive"] }
serde_json = "1"
chrono = "0.4"
file-format = "*"
anyhow = "1"
thiserror = "1"
dotenvy = "0.15"
