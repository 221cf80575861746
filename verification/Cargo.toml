[package]
name = "chappy"
version = "0.1.0"
edition = "2021"
publish = false

[dependencies]
tokio = { version = "=1.53.2", features = ["sync", "rt", "net", "time", "io-util", "signal", "macros"] }
quinn = "=0.10.2"
quinn-proto = "=0.10.6"
rustls = "=0.21.12"
rcgen = "=0.11.3"
socket2 = { version = "=0.5.10", features = ["all"] }
ipnet = "=2.12.2"
