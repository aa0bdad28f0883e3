[package]
name = "discord_wikipedia"
version = "0.1.0"
edition = "2021"
publish = false

[dependencies]
anyhow = "1"
axum = "0.7"
axum-extra = { version = "0.9", features = ["typed-header"] }
dotenv = "0.15"
ed25519-dalek = "2"
envy = "0.4"
html2md = "0.2"
once_cell = "1"
reqwest = { version = "0.12", default-features = false, features = ["json"] }
serde = { version = "1", features = ["derive"] }
serde_json = "1"
time = { version = "0.3", features = ["parsing"] }
tokio = { version = "1", features = ["macros", "rt-multi-thread", "signal", "net"] }
tower-http = { version = "0.5", features = ["timeout", "trace"] }
tracing = "0.1"
tracing-subscriber = { version = "0.3", features = ["env-filter", "fmt"] }
twilight-model = "0.15"
twilight-util = { version = "0.15", features = ["builder"] }
