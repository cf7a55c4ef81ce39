[package]
name = "led_curtain"
version = "0.1.0"
edition = "2021"
publish = false

[dependencies]
cobs = "*"
median = "*"
rand = "*"
rustfft = "*"
ebur128 = "*"
ecolor = "*"
emath = "*"
serialport = { version = "*", default-features = false }
serde = { version = "1", features = ["derive"] }
toml = "*"
log = "*"
env_logger = "*"
hound = "*"
rodio = "*"
