[package]
name = "goose-ffi2"
version = "0.1.0"
edition = "2021"
publish = false

[dependencies]
chrono = "0.4"
once_cell = "1"
serde = { version = "1", features = ["derive"] }
serde_json = "1"
tokio = { version = "1", features = ["rt-multi-thread"] }
utoipa = "4"
