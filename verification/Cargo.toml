[package]
name = "servo_core"
version = "0.1.0"
edition = "2021"
publish = false

[dependencies]
rand = "*"
anyhow = "*"
argh = "*"
async-process = "*"
futures = "*"

[dev-dependencies]
serde_json = "*"
