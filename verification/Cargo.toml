[package]
name = "traceview"
version = "0.1.0"
edition = "2021"
publish = false

[dependencies]
maud = "=0.27.0"
chrono = { version = "=0.4.45", default-features = false, features = ["alloc"] }
serde_json = { version = "=1.0.154", features = ["float_roundtrip"] }
