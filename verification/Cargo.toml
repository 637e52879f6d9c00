[package]
name = "chat_client"
version = "0.1.0"
edition = "2021"
publish = false

[dependencies]
rust-ini = "0.18"
rand = "0.8"
serde = { version = "1", features = ["derive"] }
bincode = "1"
eframe = "0.18"
