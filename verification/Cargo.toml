[package]
name = "action_client"
version = "0.1.0"
edition = "2021"
publish = false

[dependencies]
futures = "*"
uuid = "*"
