[package]
name = "walker"
version = "0.1.0"
edition = "2021"
publish = false

[dependencies]
bytes = "1"
serde_json = "1"
tokio = { version = "1", default-features = false, features = ["sync"] }
may = "*"
may_minihttp = "*"
actix-http = { version = "3", default-features = false }
