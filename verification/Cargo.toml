[package]
name = "nova_sync"
version = "0.1.0"
edition = "2021"
publish = false

[dependencies]
git2 = { version = "0.18", default-features = false }
reqwest = { version = "0.11", default-features = false, features = ["json"] }
serde = { version = "1", features = ["derive"] }
serde_json = "1"
tokio = { version = "1", features = ["sync", "time"] }
