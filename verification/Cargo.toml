[package]
name = "group_chat_core"
version = "0.1.0"
edition = "2021"
publish = false

[dependencies]
regex-lite = "0.1"
sha2 = "0.10"
serde = { version = "1", features = ["derive"] }
candid = "0.10"
phonenumber = "0.3"
