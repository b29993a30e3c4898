[package]
name = "maki_acp"
version = "0.1.0"
edition = "2021"
publish = false

[dependencies]
agent-client-protocol = "0.11"
async-lock = "=3.5.0"
clap = { version = "=4.6.7", features = ["derive"] }
color-eyre = "=0.6.5"
flume = "=0.12.0"
jiff = "=0.2.39"
serde_json = "=1.0.154"
smol = "=2.0.2"
tokio = { version = "=1.54.1", features = ["full"] }
tokio-util = { version = "=0.7.20", features = ["compat"] }
tracing = "=0.1.44"
tree-sitter = "=0.27.1"
uuid = { version = "=1.29.0", features = ["v4"] }
