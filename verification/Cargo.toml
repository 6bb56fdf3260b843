[package]
name = "squabble"
version = "0.1.0"
edition = "2021"
publish = false

[dependencies]
axum = "0.7"
serde = { version = "1", features = ["derive"] }
serde_json = "1"
serde_yaml_ng = "0.10"
tokio = { version = "1", features = ["macros", "net", "rt-multi-thread"] }
ureq = { version = "2", features = ["json"] }
