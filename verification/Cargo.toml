[package]
name = "ws_bench"
version = "0.1.0"
edition = "2021"
publish = false

[dependencies]
bytes = "=1.12.1"
fastwebsockets = "=0.10.0"
futures-util = { version = "=0.3.34", features = ["sink"] }
sockudo-ws = "=3.1.0"
soketto = "=0.8.1"
tokio = { version = "=1.54.1", features = ["rt", "io-util"] }
tokio-tungstenite = "=0.30.0"
tokio-websockets = { version = "=0.13.3", features = ["client", "server", "sha1_smol", "fastrand"] }
web-socket = "=0.7.0"
wtx = { version = "=0.46.1", features = ["std", "web-socket"] }
