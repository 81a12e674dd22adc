[package]
name = "elevenlabs_cli"
version = "0.1.0"
edition = "2021"
publish = false

[dependencies]
base64 = "0.22"
toml = "0.8"
serde = { version = "1", features = ["derive"] }
serde_json = "1"
clap = { version = "4", features = ["derive"] }
tokio = { version = "1", features = ["fs", "io-util", "io-std", "macros", "rt-multi-thread"] }
reqwest = { version = "0.12", default-features = false, features = ["json", "multipart"] }
directories = "5"
figment = { version = "0.10", features = ["toml", "env"] }
owo-colors = "4"
comfy-table = "7"
