[package]
name = "rwr_players"
version = "0.1.0"
edition = "2021"
publish = false

[dependencies]
anyhow = "=1.0.104"
dotenv = "=0.15.0"
num_cpus = "=1.17.0"
reqwest = { version = "=0.13.5", default-features = false, features = ["query"] }
reqwest-middleware = { version = "=0.5.2", features = ["query"] }
reqwest-retry = "=0.9.1"
rusqlite = { version = "=0.41.0", features = ["bundled"] }
scraper = "=0.29.0"
tokio = { version = "=1.54.1", features = ["macros", "rt-multi-thread", "time"] }
