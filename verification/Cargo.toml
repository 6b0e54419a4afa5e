[package]
name = "matrix-appservice-sms"
version = "0.1.0"
edition = "2021"
publish = false

[dependencies]
huawei-modem = "*"
glitch-in-the-matrix = "*"
failure = "0.1"
futures = "0.1"
tokio-core = "0.1"
tokio-timer = "0.2"
log = "0.4"
serde = "1"
serde_derive = "1"
serde_json = "1"
diesel = { version = "1", features = ["postgres"] }
r2d2 = "0.8"
r2d2-diesel = "1"
rocket = "0.5"
