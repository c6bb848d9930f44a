[package]
name = "ryzenmon"
version = "0.1.0"
edition = "2021"
publish = false

[dependencies]
futures = "*"
influxdb2 = "*"
serde = { version = "*", features = ["derive"] }
tokio = { version = "*", features = ["macros", "rt-multi-thread", "time"] }
toml = "*"
