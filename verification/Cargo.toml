[package]
name = "barq_memory"
version = "0.1.0"
edition = "2021"
publish = false

[dependencies]
chrono = "0.4"
uuid = { version = "1", features = ["v4", "v7"] }
sha2 = "0.10"
aes-gcm = "0.10"
serde = { version = "1", features = ["derive"] }
serde_json = "1"
thiserror = "1"
