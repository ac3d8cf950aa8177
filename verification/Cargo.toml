[package]
name = "compute_core"
version = "0.1.0"
edition = "2021"
publish = false

[dependencies]
hostname = "*"
rand = "0.8"
rayon = "1"
serde = { version = "1", features = ["derive"] }
tauri = { version = "2", default-features = false }
tokio = { version = "1", features = ["rt", "time"] }
