[package]
name = "akari"
version = "0.1.0"
edition = "2021"
publish = false

[dependencies]
crow = { version = "=0.7.2", features = ["serde1"] }
log = "=0.4.34"
ordered-float = "=5.5.0"
pretty_env_logger = "=0.5.0"
ron = "=0.12.2"
serde = { version = "=1.0.229", features = ["derive"] }
thread_profiler = "=0.3.0"
