[package]
name = "scrum_poker"
version = "0.1.0"
edition = "2021"
publish = false

[dependencies]
names = { version = "*", default-features = false }
serde = { version = "*", features = ["derive"] }
rmp-serde = "*"
tokio = { version = "*", features = ["sync", "rt", "rt-multi-thread", "time", "macros"] }
tokio-stream = "*"
uuid = { version = "*", features = ["v4"] }
directories = "*"
