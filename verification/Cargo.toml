[package]
name = "agent_provider"
version = "0.1.0"
edition = "2021"
publish = false

[dependencies]
serde = { version = "=1.0.229", features = ["derive"] }
serde_json = "=1.0.154"
thiserror = "=1.0.69"
async-trait = "=0.1.92"
async-stream = "=0.3.6"
futures-util = "=0.3.34"
once_cell = "=1.21.4"
tracing = "=0.1.44"
tokio = { version = "=1.54.1", features = ["sync", "time", "rt", "macros", "process"] }
reqwest = { version = "=0.12.28", default-features = false, features = ["json", "stream"] }
rmcp = { version = "=3.8.0", features = ["client", "transport-child-process", "transport-streamable-http-client-reqwest"] }
async-openai = { version = "=0.43.0", features = ["chat-completion"] }
sled = "=0.34.7"
