[package]
name = "sparkboard"
version = "0.1.0"
edition = "2021"
publish = false

[dependencies]
bytes = "=1.12.1"
chrono = "=0.4.45"
clap = "=2.34.0"
dither = "=1.0.5"
embedded-graphics = "=0.6.2"
env_logger = "=0.8.4"
log = "=0.4.34"
png = "=0.16.8"
reqwest = { version = "=0.11.27", default-features = false, features = ["blocking"] }
rppal = "=0.14.1"
spidev = "=0.5.2"
