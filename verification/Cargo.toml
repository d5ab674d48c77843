[package]
name = "shimmy"
version = "0.1.0"
edition = "2021"
publish = false

[dependencies]
serde = { version = "=1.0.229", features = ["derive"] }
serde_json = "=1.0.154"
clap = { version = "=4.6.7", features = ["derive"] }
tokio = { version = "=1.54.1", features = ["full"] }
reqwest = { version = "=0.13.5", default-features = false, features = ["json"] }
rmcp = { version = "=3.8.0", features = ["client", "server", "macros", "transport-child-process", "transport-io", "transport-streamable-http-client-reqwest"] }
jiff = "=0.2.43"
uuid = { version = "=1.29.1", features = ["v4"] }
axum = "=0.8.9"
thiserror = "=2.0.21"
tauri = { version = "2", default-features = false }
