[package]
name = "webql"
version = "0.1.0"
edition = "2021"
publish = false

[dependencies]
jql = "5"
serde_json = "1"
chrono = "0.4"
serde = { version = "1", features = ["derive"] }
serde_urlencoded = "0.7"
reqwest = { version = "0.11", default-features = false, features = ["blocking", "json"] }
