[package]
name = "pineapple"
version = "0.1.0"
edition = "2021"
publish = false

[dependencies]
anyhow = "=1.0.104"
chrono = "=0.4.45"
clap = { version = "=4.6.7", features = ["derive"] }
colored = "=2.2.0"
csv = "=1.4.0"
dirs = "=5.0.1"
flate2 = "=1.1.10"
futures = "=0.3.34"
kdam = { version = "=0.5.2", features = ["template"] }
num_cpus = "=1.17.0"
reqwest = { version = "=0.12.28", features = ["cookies"] }
scraper = "=0.20.0"
tokio = { version = "=1.54.1", features = ["full"] }
