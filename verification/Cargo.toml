[package]
name = "file_embedding"
version = "0.1.0"
edition = "2021"
publish = false

[dependencies]
anyhow = "1"
dirs = "5"
fastembed = "4"
mime_guess = "2"
pdf-extract = "0.7"
serde = { version = "1", features = ["derive"] }
thiserror = "1"
tokio = { version = "1", features = ["full"] }
walkdir = "2"
