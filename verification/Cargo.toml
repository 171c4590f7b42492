[package]
name = "room_relay"
version = "0.1.0"
edition = "2021"
publish = false

[dependencies]
actix = "=0.13.5"
actix-codec = "=0.5.4"
actix-http = { version = "=3.19.0", default-features = false, features = ["ws"] }
actix-web = { version = "=4.18.1", default-features = false, features = ["macros", "ws"] }
actix-web-actors = "=4.3.1"
awc = { version = "=3.11.0", default-features = false }
bytes = "=1.12.1"
env_logger = "=0.11.11"
futures = "=0.3.34"
futures-util = { version = "=0.3.34", features = ["sink"] }
log = "=0.4.34"
tokio = { version = "=1.54.1", features = ["sync", "macros"] }
tokio-stream = "=0.1.19"
uuid = { version = "=1.29.0", features = ["v4", "serde"] }
