[package]
name = "gerritbot"
version = "0.1.0"
edition = "2021"
publish = false

[dependencies]
hlua = "=0.4.3"
lru_time_cache = "=0.7.0"
regex = "=1.7.3"
serde = { version = "=1.0.229", features = ["derive"] }
serde_json = "=1.0.154"
