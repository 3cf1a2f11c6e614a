[package]
name = "ocha"
version = "0.1.0"
edition = "2021"
publish = false

[dependencies]
bytes = "1"
chrono = "=0.4.45"
clap = { version = "=4.6.7", features = ["derive"] }
futures-util = "0.3"
http-body-util = "0.1"
hyper = { version = "=1.12.0", features = ["http1", "server"] }
hyper-util = { version = "=0.1.21", features = ["server", "server-auto", "tokio"] }
rand = "=0.10.3"
reqwest = { version = "=0.13.5", features = ["json", "stream"] }
serde = { version = "1", features = ["derive"] }
serde_json = "=1.0.154"
tokio = { version = "=1.54.1", features = ["full"] }
