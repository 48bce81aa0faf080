[package]
name = "homework_backup"
version = "0.1.0"
edition = "2021"
publish = false

[dependencies]
zip = { version = "0.6", default-features = false, features = ["zstd"] }
chrono = { version = "0.4", default-features = false, features = ["clock"] }
serde = { version = "1", features = ["derive"] }
serde_json = "1"
