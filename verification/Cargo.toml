[package]
name = "freitunit"
version = "0.1.0"
edition = "2021"
publish = false

[dependencies]
atty = "0.2"
chrono = "0.4"
clap = { version = "4", features = ["cargo"] }
inline_colorization = "*"
regex = "1"
serde = { version = "1", features = ["derive"] }
serde_json = "1"
simple-xml-builder = "*"
