[package]
name = "woodpecker"
version = "0.1.0"
edition = "2021"
publish = false

[dependencies]
serde_json = "1"
chrono = "0.4"
time = "0.1"
parking_lot = "0.12"
