[package]
name = "nodemesh"
version = "0.1.0"
edition = "2021"
publish = false

[dependencies]
anyhow = "1"
axum = { version = "0.8", features = ["ws"] }
base64 = "=0.22.1"
clap = { version = "4", features = ["derive"] }
docx-rs = "=0.4.22"
futures-util = "0.3"
http-body-util = "0.1"
hyper = { version = "1", features = ["client", "http1"] }
hyper-util = { version = "0.1", features = ["tokio"] }
mail-parser = "=0.11.9"
pdf-extract = "=0.10.0"
reqwest = { version = "0.12", default-features = false }
serde = { version = "1", features = ["derive"] }
serde_json = "=1.0.154"
str0m = { version = "=0.24.1", default-features = false, features = ["rust-crypto"] }
tokio = { version = "1", features = ["full"] }
tokio-tungstenite = "=0.29.0"
toml = "0.8"
tracing = "0.1"
tracing-subscriber = { version = "0.3", features = ["env-filter"] }
uuid = { version = "=1.29.0", features = ["v7"] }
