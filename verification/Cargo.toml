[package]
name = "upscale_orchestrator"
version = "0.1.0"
edition = "2021"
publish = false

[dependencies]
uuid = { version = "*", features = ["v4"] }
actix-web = { version = "*", default-features = false, features = ["macros"] }
actix-cors = "*"
actix-multipart = "*"
futures-util = "*"
tokio = { version = "*", features = ["macros", "rt-multi-thread", "process", "io-util", "sync"] }
tracing = "*"
tracing-subscriber = { version = "*", features = ["env-filter"] }
