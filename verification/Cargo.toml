[package]
name = "secret_raffle"
version = "0.1.0"
edition = "2021"
publish = false

[dependencies]
secret-cosmwasm-std = { version = "*", features = ["random"] }
secret-toolkit = { version = "*", default-features = false, features = ["permit", "storage"] }
serde = { version = "1", default-features = false, features = ["derive"] }
schemars = "0.8"
