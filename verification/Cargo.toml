[package]
name = "trace_propagation"
version = "0.1.0"
edition = "2021"
publish = false

[dependencies]
tonic = { version = "=0.14.6", default-features = false }
http = { version = "=1.5.0" }
opentelemetry = { version = "=0.33.1", default-features = false, features = ["trace"] }
opentelemetry_sdk = { version = "=0.33.1", default-features = false, features = ["trace"] }
