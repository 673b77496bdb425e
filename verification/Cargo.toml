[package]
name = "autoban"
version = "0.1.0"
edition = "2021"
publish = false

[dependencies]
cidr-utils = "0.5"
qqwry = "*"
iptables = "0.5"
axum = { version = "0.6", features = ["headers"] }
tokio = { version = "1", features = ["full"] }
tower = "0.4"
tower-http = { version = "0.4", features = ["trace"] }
serde = { version = "1", features = ["derive"] }
serde_json = "1"
toml = "0.7"
clap = { version = "4", features = ["derive"] }
ctrlc = "3"
local-ip-address = "0.5"
log = "0.4"
once_cell = "1"
tracing = "0.1"
tracing-subscriber = "0.3"
anyhow = "1"
uuid = { version = "1", features = ["v4"] }
