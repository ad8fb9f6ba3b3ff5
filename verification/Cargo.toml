[package]
name = "wallet_backend"
version = "0.1.0"
edition = "2021"
publish = false

[dependencies]
tarpc = { version = "=0.38.0", features = ["full"] }
tokio = { version = "=1.53.2", features = ["macros", "rt-multi-thread"] }
futures = "=0.3.34"
