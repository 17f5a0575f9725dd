[package]
name = "mlb_fetch"
version = "0.1.0"
edition = "2021"
publish = false

[dependencies]
serde = { version = "=1.0.229", features = ["derive"] }
reqwest = { version = "=0.13.5", default-features = false, features = ["json", "query"] }
tokio = { version = "=1.53.2", features = ["rt-multi-thread", "macros", "fs"] }
futures = "=0.3.34"
parking_lot = "=0.12.5"
time = "=0.3.55"
