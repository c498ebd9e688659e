[package]
name = "dibi"
version = "0.1.0"
edition = "2021"
publish = false

[dependencies]
bytes = "1"
sha1 = "0.10"
tokio = { version = "1", features = ["net", "io-util", "rt-multi-thread", "macros"] }
tokio-util = { version = "0.7", features = ["codec"] }
tokio-native-tls = "0.3"
tokio-stream = "0.1"
futures = "0.3"
thiserror = "1"
tracing = "0.1"
tracing-subscriber = { version = "0.3", features = ["env-filter"] }
dotenvy = "0.15"
