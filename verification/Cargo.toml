[package]
name = "mensajero"
version = "0.1.0"
edition = "2021"
publish = false

[dependencies]
anyhow = "1"
egui_dock = "0.14"
reqwest = "0.12"
serde_json = "1"
tokio = { version = "1", features = ["rt-multi-thread"] }
