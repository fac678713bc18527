[package]
name = "imap_responses"
version = "0.1.0"
edition = "2021"
publish = false

[dependencies]
async-channel = "=2.5.0"
futures-util = { version = "=0.3.34", features = ["io"] }
imap-proto = "=0.17.0"

[dev-dependencies]
futures-executor = "=0.3.34"
