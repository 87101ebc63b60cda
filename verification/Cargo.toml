[package]
name = "fizzbuzz-task-scheduler"
version = "0.1.0"
edition = "2021"
publish = false

[dependencies]
chrono = "0.4"
random-string = "1"
serde = { version = "1", features = ["derive"] }
serde_json = "1"
rusqlite = { version = "*", features = ["bundled"] }
tokio = { version = "1", features = ["full"] }
graphul = "*"
zenoh = { version = "0.11", default-features = false }
