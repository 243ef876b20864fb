[package]
name = "btc_mempool"
version = "0.1.0"
edition = "2021"
publish = false

[dependencies]
rand = "0.8"
bitcoin = "0.32"
dns-lookup = "2"
futures = "0.3"
tokio = { version = "1", features = ["rt-multi-thread", "macros", "time"] }
