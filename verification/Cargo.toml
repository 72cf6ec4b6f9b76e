[package]
name = "book-core"
version = "0.1.0"
edition = "2021"
publish = false

[dependencies]
anyhow = "1"
blake3 = "1"
chrono = "0.4"
clap = { version = "4", features = ["derive"] }
glob = "0.3"
indicatif = "0.17"
lofty = "0.21"
notify = "6"
rayon = "1"
regex = "1"
rusqlite = { version = "0.31", features = ["bundled"] }
serde = { version = "1", features = ["derive"] }
serde_json = "1"
shellexpand = "3"
toml = "0.8"
uuid = { version = "1", features = ["v4"] }
walkdir = "2"
