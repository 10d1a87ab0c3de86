[package]
name = "rocketlaunch_bot"
version = "0.1.0"
edition = "2021"
publish = false

[dependencies]
sled = "=0.34.7"
serde_json = "1"
serde = { version = "1", features = ["derive"] }
serde_with = { version = "=3.24.0", features = ["chrono"] }
serde_yaml = "0.9"
chrono = { version = "=0.4.45", features = ["serde"] }
clap = { version = "4", features = ["derive"] }
dptree = "0.3"
futures = "0.3"
humantime = "2"
reqwest = { version = "0.11", default-features = false, features = ["rustls-tls"] }
teloxide = { version = "=0.12.2", default-features = false, features = ["rustls", "macros", "throttle", "cache-me", "trace-adaptor"] }
thiserror = "1"
tokio = { version = "1", features = ["macros", "rt-multi-thread", "signal", "time"] }
tokio-util = "0.7"
tracing = "0.1"
tracing-subscriber = "0.3"
takecell = "=0.1.1"
