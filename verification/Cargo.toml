[package]
name = "aoe2_tracker"
version = "0.1.0"
edition = "2021"
publish = false

[dependencies]
actix-files = "*"
actix-rt = "*"
actix-web = "*"
chrono = "*"
reqwest = { version = "*", features = ["blocking", "json"] }
rusqlite = "*"
serde = { version = "*", features = ["derive"] }
serde_json = "*"
