[package]
name = "bulletforcehax"
version = "0.1.0"
edition = "2021"
publish = false

[dependencies]
anyhow = "1"
axum = { version = "0.6", features = ["ws"] }
bytesize = "1"
clap = { version = "4", features = ["cargo"] }
futures = "0.3"
futures-util = "0.3"
hyper = { version = "0.14", features = ["full"] }
hyper-tls = "0.5"
hyper-tungstenite = "0.11"
indexmap = { version = "2", features = ["serde"] }
ordered-float = { version = "3", features = ["serde"] }
postcard = { version = "1", features = ["alloc"] }
regex = "1"
serde = { version = "1", features = ["derive"] }
serde_json = "1"
thiserror = "1"
time = { version = "0.3", features = ["local-offset"] }
tokio = { version = "1", features = ["full"] }
tokio-tungstenite = "0.20"
tokio-util = { version = "0.7", features = ["io"] }
toml = "0.7"
tower = { version = "0.4", features = ["util", "steer", "make"] }
tower-http = { version = "0.4", features = ["cors", "decompression-full"] }
tracing = "0.1"
tracing-appender = "0.2"
tracing-subscriber = { version = "0.3", features = ["json"] }
