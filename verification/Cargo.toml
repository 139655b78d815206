[package]
name = "funnel"
version = "0.1.0"
edition = "2021"
publish = false

[dependencies]
chrono = "0.4"
indexmap = "2"
serde = { version = "1", features = ["derive"] }
serde_json = "1"
ewebsock = "*"
egui = "0.30"
