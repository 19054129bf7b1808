[package]
name = "turso_dst"
version = "0.1.0"
edition = "2021"
publish = false

[dependencies]
turso_core = "*"
tracing = "0.1"
tracing-subscriber = { version = "0.3", features = ["env-filter"] }
