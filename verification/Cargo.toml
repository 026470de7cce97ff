[package]
name = "vmadm"
version = "0.1.0"
edition = "2021"
publish = false

[dependencies]
regex = "1"
rand = "0.8"
uuid = { version = "1", features = ["v4", "serde"] }
serde = { version = "1", features = ["derive"] }
serde_json = "1"
toml = "0.8"
clap = "4"
reqwest = { version = "0.12", default-features = false, features = ["blocking"] }
bzip2 = "*"
flate2 = "1"
tempfile = "3"
chrono = { version = "0.4", features = ["serde"] }
prettytable-rs = "0.10"
slog = "2"
slog-term = "2"
slog-async = "2"
slog-bunyan = "2"
slog-scope = "4"
aud = "*"
