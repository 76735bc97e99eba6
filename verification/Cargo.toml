[package]
name = "rocket_slogger"
version = "1.1.0"
edition = "2021"
publish = false

[dependencies]
chrono = "0.4"
rocket = "0.5.1"
slog = "2.7"
slog-bunyan = "2"
slog-envlogger = "2"
slog-term = "2"
uuid = { version = "1", features = ["v4"] }
