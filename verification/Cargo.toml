[package]
name = "ping_pong"
version = "0.1.0"
edition = "2021"
publish = false

[dependencies]
bincode = "1.3.3"
ctrlc = "3"
message-io = "*"

[dev-dependencies]
serde = "1"
