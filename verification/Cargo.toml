[package]
name = "goatns"
version = "0.1.0"
edition = "2021"
publish = false

[dependencies]
hex = "=0.4.3"
regex = "=1.13.1"
sha2 = "=0.10.9"
http = "=1.5.0"
tokio = { version = "=1.54.1", features = ["net", "rt-multi-thread", "macros", "io-util", "sync", "time", "fs"] }
serde = { version = "=1.0.229", features = ["derive"] }
serde_json = "=1.0.154"
clap = { version = "=4.6.7", features = ["derive"] }
tracing = "=0.1.44"
chrono = "=0.4.45"
url = "2"
