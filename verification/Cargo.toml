[package]
name = "red_monkey"
version = "0.1.0"
edition = "2021"
publish = false

[dependencies]
resp = "0.4"
url = "=2.5.8"
chashmap = "=2.2.2"
chrono = { version = "=0.4.45", features = ["serde"] }
tokio = { version = "=1.54.1", features = ["full"] }
tokio-native-tls = "=0.3.1"
tokio-util = { version = "=0.7.20", features = ["codec"] }
futures = "=0.3.34"
bytes = "=1.12.1"
actix-web = "=4.18.1"
serde = { version = "=1.0.229", features = ["derive"] }
envy = "=0.4.2"
anyhow = "=1.0.104"
thiserror = "=1.0.69"
tracing = "=0.1.44"
tracing-subscriber = { version = "=0.3.23", features = ["env-filter", "registry"] }
tracing-bunyan-formatter = "=0.3.11"
tracing-log = "=0.2.0"
tracing-actix-web = "=0.7.25"
uuid = { version = "=1.29.0", features = ["v4"] }
