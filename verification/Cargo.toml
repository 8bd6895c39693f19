[package]
name = "hyper_uppercut"
version = "0.1.0"
edition = "2021"
publish = false

[dependencies]
secp256k1 = "*"
sha2 = "*"
serde = { version = "*", features = ["derive"] }
serde_json = "*"
tokio = { version = "*", features = ["macros", "rt-multi-thread", "time", "sync"] }
tokio-tungstenite = "*"
futures-util = "*"
url = "*"
reqwest = { version = "*", default-features = false }
dotenv = "*"
ollama-rs = "*"

[dev-dependencies]
hex = "*"
