[package]
name = "snowball_server"
version = "0.1.0"
edition = "2021"
publish = false

[dependencies]
tokio = { version = "=1.54.1", features = ["sync", "macros", "rt-multi-thread"] }
warp = { version = "=0.3.7", default-features = false, features = ["websocket"] }
serde = { version = "=1.0.229", features = ["derive"] }
futures-util = "=0.3.34"
