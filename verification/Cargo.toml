[package]
name = "station_emulator"
version = "0.1.0"
edition = "2021"
publish = false

[dependencies]
json = "*"
uuid = { version = "*", features = ["v4"] }
chrono = "*"
ws = "*"
url = "*"
dotenv = "*"
env_logger = "*"
