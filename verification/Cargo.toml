[package]
name = "ai_agent"
version = "0.1.0"
edition = "2021"
publish = false

[dependencies]
anyhow = "=1.0.104"
async-openai = { version = "=0.43.0", features = ["chat-completion", "embedding"] }
async-trait = "=0.1.92"
backon = "=1.6.0"
chrono = "=0.4.45"
csv = "=1.4.0"
dotenvy = "=0.15.7"
reqwest = { version = "=0.13.5", features = ["json"] }
rusqlite = "=0.41.1"
schemars = "=1.2.3"
serde = { version = "=1.0.229", features = ["derive"] }
serde_json = "=1.0.154"
tiktoken-rs = "=0.12.1"
tokio = { version = "=1.54.1", features = ["macros", "rt-multi-thread", "sync"] }
tracing = "=0.1.44"
tracing-subscriber = "=0.3.23"
uuid = { version = "=1.29.0", features = ["v4"] }
