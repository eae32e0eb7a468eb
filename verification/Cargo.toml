[package]
name = "llms-sdk"
version = "0.1.1"
edition = "2021"
publish = false

[dependencies]
base64 = "0.22"
file-format = "*"
serde_json = "1"
schemars = "1"
serde = { version = "1", features = ["derive"] }
reqwest = { version = "0.12", default-features = false, features = ["json", "stream", "rustls-tls"] }
reqwest-middleware = "0.4"
reqwest-retry = "0.7"
eventsource-stream = "0.2"
async-stream = "0.3"
futures-util = "0.3"
tokio = { version = "1", features = ["macros", "rt-multi-thread"] }
clap = { version = "4", features = ["derive"] }
rustls = { version = "0.23", default-features = false, features = ["ring", "std", "tls12", "logging"] }
