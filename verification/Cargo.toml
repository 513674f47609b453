[package]
name = "lockcheck"
version = "0.1.0"
edition = "2021"
publish = false

[dependencies]
parking_lot = "*"
lock_api = "*"
tokio = { version = "*", features = ["rt-multi-thread", "sync", "time", "macros"] }
once_cell = "*"
metrics = "*"
tracing = "*"
actix-web = "4"
