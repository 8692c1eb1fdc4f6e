[package]
name = "queue_experiments"
version = "0.1.0"
edition = "2021"
publish = false

[dependencies]
futures = { version = "0.3", features = ["bilock", "unstable"] }
parking_lot = "0.12"
