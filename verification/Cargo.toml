[package]
name = "taskpool"
version = "0.1.0"
edition = "2021"
publish = false

[dependencies]
urlencoding = "2"
crossbeam = "0.8"
polling = "3"
parking_lot = "0.12"
serde = { version = "1", features = ["derive"] }
serde_json = "1"
