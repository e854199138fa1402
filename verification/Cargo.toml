[package]
name = "pdf_outline"
version = "0.1.0"
edition = "2021"
publish = false

[dependencies]
pdf-extract = "*"
lopdf = "*"
serde = { version = "*", features = ["derive"] }
serde_json = "*"
clap = { version = "*", features = ["derive"] }
anyhow = "*"
