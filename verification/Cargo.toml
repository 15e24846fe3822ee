[package]
name = "fileflow"
version = "0.1.0"
edition = "2021"
publish = false

[dependencies]
sha2 = "0.10"
hex = "0.4"
serde = { version = "1", features = ["derive"] }
serde_json = "1"
anyhow = "1"
chrono = "0.4"
tokio = { version = "1", features = ["rt-multi-thread", "sync", "macros", "time"] }
tracing = "0.1"
walkdir = "2"
which = "*"
dirs = "*"
once_cell = "1"
notify = "*"
zip = { version = "*", default-features = false, features = ["deflate"] }
lopdf = "*"
calamine = "*"
docx-rs = "*"
open = "*"
futures = "0.3"
arrow-array = "*"
arrow-schema = "*"
rusqlite = { version = "*", features = ["bundled"] }

[dev-dependencies]
tempfile = "3"
