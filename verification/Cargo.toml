[package]
name = "process_manager"
version = "0.1.0"
edition = "2021"
publish = false

[dependencies]
sysinfo = "*"
serde = { version = "1", features = ["derive"] }
tokio = { version = "1", features = ["rt", "time", "sync"] }

[dev-dependencies]
regex = "1"
