[package]
name = "dsh_desktop"
version = "1.1.0"
edition = "2021"
publish = false

[dependencies]
dirs = "5"
regex = "1"
reqwest = { version = "0.11", default-features = false }
rfd = { version = "0.14", default-features = false, features = ["xdg-portal", "tokio"] }
serde = { version = "1", features = ["derive"] }
serde_json = "1"
tokio = { version = "1", features = ["full"] }
