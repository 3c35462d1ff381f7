[package]
name = "imhottep"
version = "0.1.0"
edition = "2021"
publish = false

[dependencies]
ansi-to-tui = "8"
bytes = "1"
http-body-util = "0.1"
hyper = { version = "1", features = ["client", "http1"] }
hyper-tls = "0.6"
hyper-util = { version = "0.1", features = ["client", "client-legacy", "http1", "tokio"] }
ratatui = { version = "0.30", features = ["unstable-rendered-line-info"] }
regex = "1"
serde = { version = "1", features = ["derive"] }
serde_json = "1"
smallvec = "1"
tokio = { version = "1", features = ["rt-multi-thread", "sync", "net", "time"] }
unicode-width = "0.2"
url = "2"

[dev-dependencies]
tempfile = "3"
