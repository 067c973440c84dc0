[package]
name = "movie_digest"
version = "0.1.0"
edition = "2021"
publish = false

[dependencies]
anyhow = "=1.0.104"
chrono = "=0.4.45"
csv = "=1.4.0"
quick-xml = "=0.41.0"
reqwest = { version = "=0.12.28", features = ["json"] }
rss = { version = "=2.1.2", default-features = false }
serde_json = "=1.0.154"
tokio = { version = "=1.54.1", features = ["macros", "rt-multi-thread"] }

[dev-dependencies]
regex = "=1.13.1"
