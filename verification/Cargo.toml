[package]
name = "guild_shell"
version = "0.1.0"
edition = "2021"
publish = false

[dependencies]
chrono = "=0.4.45"
serde = { version = "=1.0.229", features = ["derive"] }
serde_yaml = "=0.8.26"
tokio = { version = "=1.53.2", features = ["full"] }
dotenv = "=0.15.0"
serenity = { version = "=0.10.10", features = ["unstable_discord_api"] }
