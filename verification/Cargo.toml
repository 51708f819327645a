[package]
name = "feedcruncher"
version = "0.1.0"
edition = "2021"
publish = false

[dependencies]
rss = "2"
atom_syndication = "0.12"
serde_json = "1"
serde = { version = "1", features = ["derive"] }
toml = "0.8"
anyhow = "1"
clap = { version = "4", features = ["derive"] }
tokio = { version = "1", features = ["rt-multi-thread", "macros", "time"] }
reqwest = { version = "0.12", default-features = false, features = ["rustls-tls"] }
sqlx = { version = "0.8", default-features = false, features = ["runtime-tokio", "sqlite"] }
