[package]
name = "tweet_cycle"
version = "0.1.0"
edition = "2021"
publish = false

[dependencies]
base64 = "=0.22.1"
rand = "=0.9.5"
owo-colors = "=4.4.0"
anyhow = "1"
chrono = "0.4"
dotenv = "0.15"
reqwest = { version = "0.12", features = ["json"] }
serde = { version = "1", features = ["derive"] }
serde_json = "1"
tokio = { version = "1", features = ["full"] }
rig-core = "0.9"
agent-twitter-client = "0.1.2"
elevenlabs_rs = "0.3"

[dev-dependencies]
regex = "=1.13.1"
