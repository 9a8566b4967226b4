[package]
name = "scaffolder"
version = "0.1.0"
edition = "2021"
publish = false

[dependencies]
serde_json = "=1.0.151"
serde = "=1.0.229"
anyhow = "=1.0.104"
clap = { version = "=4.6.7", features = ["derive"] }
async-openai = { version = "=0.42.1", features = ["chat-completion"] }
tokio = { version = "=1.53.2", features = ["macros", "rt-multi-thread"] }
