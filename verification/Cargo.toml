[package]
name = "powerpulse"
version = "0.1.0"
edition = "2021"
publish = false

[dependencies]
battery = "0.7"
chrono = "0.4"
clap = { version = "4", features = ["derive"] }
dirs = "*"
notify-rust = "*"
rusqlite = { version = "*", features = ["bundled"] }
