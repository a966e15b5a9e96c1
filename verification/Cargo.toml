[package]
name = "bank"
version = "0.1.0"
edition = "2021"
publish = false

[dependencies]
anchor-lang = { version = "=0.31.2", features = ["init-if-needed"] }
anchor-spl = { version = "=0.31.2", default-features = false, features = ["token", "token_2022", "associated_token"] }
borsh = "=1.8.1"
serde = { version = "=1.0.229", features = ["derive"] }
serde_json = "=1.0.154"
