[package]
name = "housing_scout"
version = "0.1.0"
edition = "2021"
publish = false

[dependencies]
scraper = "=0.27.0"
chrono = "=0.4.45"
serde = { version = "*", features = ["derive"] }
serde_json = "*"
anyhow = "*"
tokio = { version = "*", features = ["macros", "rt-multi-thread", "fs"] }
reqwest = { version = "*", default-features = false }
headless_chrome = { version = "=1.0.22", features = ["offline"] }
tracing = "*"
tracing-subscriber = "*"
async-trait = "*"
