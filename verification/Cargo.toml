[package]
name = "omcli"
version = "0.1.0"
edition = "2021"
publish = false

[dependencies]
rand = "*"
uuid = { version = "*", features = ["v4"] }
base64 = "*"
serde = { version = "*", features = ["derive"] }
serde_json = "*"
toml = "*"
dirs = "*"
clap = { version = "*", features = ["derive"] }
tokio = { version = "*", features = ["full"] }
axum = { version = "*", features = ["ws"] }
reqwest = { version = "*", default-features = false, features = ["json"] }
a2 = "*"
tower-http = { version = "*", features = ["cors"] }
hostname = "*"
mdns-sd = "*"
tracing = "*"
tracing-subscriber = "*"
