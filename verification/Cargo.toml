[package]
name = "gateway_fleet"
version = "0.1.0"
edition = "2021"
publish = false

[dependencies]
dotenv = "*"
futures-util = "*"
redis = { version = "*", features = ["tokio-comp"] }
serde = { version = "1", features = ["derive"] }
simd-json = "*"
tokio = { version = "1", features = ["macros", "rt-multi-thread", "signal", "time", "sync"] }
tracing = "*"
tracing-subscriber = "*"
