[package]
name = "group_chat_moderation"
version = "0.1.0"
edition = "2021"
publish = false

[dependencies]
axum = "0.7"
futures = "0.3"
num_cpus = "1"
serde = { version = "1", features = ["derive"] }
serde_json = "1"
thiserror = "1"
tokio = { version = "1", features = ["macros", "net", "rt-multi-thread", "sync"] }
tracing = "0.1"
tracing-subscriber = { version = "0.3", features = ["env-filter"] }
