[package]
name = "rusty_blitzcrank"
version = "0.1.0"
edition = "2021"
publish = false

[dependencies]
chrono = "0.4"
dotenv = "0.15"
poise = "0.6"
rand = "0.9"
regex = "1"
reqwest = { version = "0.12", features = ["json"] }
rspotify = "0.13"
serde_json = "1"
serenity = "0.12"
tokio = { version = "1", features = ["macros", "rt-multi-thread", "fs", "io-util"] }
tokio-cron-scheduler = "0.13"
