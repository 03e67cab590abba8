[package]
name = "budget_chat"
version = "0.1.0"
edition = "2021"
publish = false

[dependencies]
parking_lot = "*"
serde = { version = "*", features = ["derive"] }
serde_json = "*"
uuid = { version = "*", features = ["v4"] }
