[package]
name = "zho_text_normalizer"
version = "0.1.0"
edition = "2021"
publish = false

[dependencies]
clap = { version = "4", features = ["derive"] }
opencc = "*"
serde = { version = "1", features = ["derive"] }
serde_json = "1"
unicode-normalization = "0.1"
