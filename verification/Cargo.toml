[package]
name = "simulated-exchange"
version = "0.1.0"
edition = "2021"
publish = false

[dependencies]
chrono = "0.4"
fnv = "1"
futures = "0.3"
itertools = "0.14"
rust_decimal = "1"
smol_str = "0.3"
tokio = { version = "1", features = ["rt", "sync", "time"] }
tokio-stream = { version = "0.1", features = ["sync"] }
tracing = "0.1"
