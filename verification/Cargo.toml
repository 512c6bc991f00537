[package]
name = "voicebot"
version = "0.1.0"
edition = "2021"
publish = false

[dependencies]
rand = "0.8"
dashmap = "6"
serde_json = "1"
zip = { version = "2", default-features = false, features = ["deflate"] }
tokio = { version = "1", features = ["macros", "rt-multi-thread", "sync"] }
dotenv = "0.15"
async-trait = "0.1"
reqwest = "0.12"
poise = "0.6"
serenity = "0.12"
songbird = "0.5"
