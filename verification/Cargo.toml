[package]
name = "city_weather"
version = "0.1.0"
edition = "2021"
publish = false

[dependencies]
serde_json = "*"
open-meteo-api = "*"
reqwest = "*"
tokio = { version = "*", features = ["rt-multi-thread"] }
