[package]
name = "drive_download"
version = "0.1.0"
edition = "2021"
publish = false

[dependencies]
futures = "=0.3.34"
google-drive3 = "=5.0.5"
human_bytes = "=0.4.3"
hyper = { version = "0.14", features = ["stream"] }
md5 = "=0.7.0"
