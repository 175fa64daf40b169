[package]
name = "openaudio"
version = "0.1.0"
edition = "2021"
publish = false

[dependencies]
egui = "0.28.1"
rfd = { version = "0.14.1", default-features = false, features = ["xdg-portal", "async-std"] }
serde = { version = "1", features = ["derive"] }
serde_json = "1"
