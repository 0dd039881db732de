[package]
name = "openfmb_bus"
version = "0.1.0"
edition = "2021"
publish = false

[dependencies]
anymap = "*"
async-nats = "*"
async-trait = "*"
bytes = "*"
futures = "*"
log = "*"
nats = "*"
tokio = { version = "*", features = ["sync"] }
