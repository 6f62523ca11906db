[package]
name = "summary_doc"
version = "0.1.0"
edition = "2021"
publish = false

[dependencies]
chrono = "0.4"
date_time_parser = "*"
serde = { version = "1", features = ["derive"] }
serde_json = "1"
serenity = "0.10"
tokio = { version = "1", features = ["macros", "rt-multi-thread"] }
