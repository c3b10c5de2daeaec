[package]
name = "vaughan_dioxus"
version = "0.1.0"
edition = "2021"
publish = false

[dependencies]
url = "2"
hex = "0.4"
alloy = { version = "*", default-features = false }
serde = { version = "1", features = ["derive"] }
serde_json = "1"
uuid = { version = "1", features = ["v4"] }
arboard = { version = "3", default-features = false }
