[package]
name = "chaos_ntp"
version = "0.1.0"
edition = "2021"
publish = false

[dependencies]
chrono = "0.4"
clap = "4"
serde = { version = "1", features = ["derive"] }
toml = "0.8"
slog = "2"
slog-async = "2"
slog-term = "2"
slog-scope = "4"
