[package]
name = "para_ssg"
version = "0.1.0"
edition = "2021"
publish = false

[dependencies]
serde_yaml = "0.9"
pulldown-cmark = "0.12"
chrono = "0.4"
serde = { version = "1", features = ["derive"] }
serde_json = "1"
rayon = "1"
