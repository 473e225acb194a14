[package]
name = "loopmachine"
version = "0.1.0"
edition = "2021"
publish = false

[dependencies]
serde = { version = "1", features = ["derive"] }
serde_json = "1"
log = "0.4"
env_logger = "0.11"
hound = "3"
rustfft = "6"
symphonia = { version = "0.5", features = ["mp3"] }
crossbeam-channel = "0.5"
