[package]
name = "sea_of_friends"
version = "0.1.0"
edition = "2021"
publish = false

[dependencies]
image = { version = "*", default-features = false, features = ["png"] }
rand = "*"
serde = { version = "1", features = ["derive"] }
serde_json = "1"
