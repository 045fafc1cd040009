[package]
name = "oscbridge"
version = "0.1.0"
edition = "2021"
publish = false

[dependencies]
async-osc = "=0.2.0"
async-std = "=1.13.2"
dotenv = "=0.15.0"
futures = "=0.3.34"
paho-mqtt = { version = "=0.14.0", default-features = false }

[dev-dependencies]
serde_json = "=1.0.151"
