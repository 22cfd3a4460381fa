[package]
name = "datafusion_log_reader"
version = "0.1.0"
edition = "2021"
publish = false

[dependencies]
chrono = "*"
arrow = { version = "*", default-features = false }
