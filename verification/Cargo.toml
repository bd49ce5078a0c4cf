[package]
name = "luajoin"
version = "0.1.0"
edition = "2021"
publish = false

[dependencies]
full_moon = { version = "0.19", features = ["roblox"] }
serde_json = "1"
serde = { version = "1", features = ["derive"] }
clap = { version = "4", features = ["derive"] }
colorize = "0.1"
chrono = "0.4"
notify = "5"
notify-debouncer-mini = "0.2"
simple-websockets = "0.1"
