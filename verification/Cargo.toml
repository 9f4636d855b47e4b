[package]
name = "wasabi-speedtest-curl"
version = "0.1.0"
edition = "2021"
publish = false

[dependencies]
rand = "0.9"
chrono = "0.4"
clap = { version = "4", features = ["derive"] }
crossterm = "0.28"
ctrlc = "3"
dotenvy = "0.15"
envconfig = "0.10"
ureq = "3"
