[package]
name = "gateway"
version = "0.1.0"
edition = "2021"
publish = false

[dependencies]
ureq = { version = "2", default-features = false }
serde = { version = "1", features = ["derive"] }
async-stream = "0.3"
futures-core = "0.3"
