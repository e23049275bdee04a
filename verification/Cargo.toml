[package]
name = "lts_ingest"
version = "0.1.0"
edition = "2021"
publish = false

[dependencies]
miniz_oxide = "*"
uuid = "*"
tungstenite = "*"
toml = "*"
serde = { version = "1", features = ["derive"] }
serde_json = "1"
axum = { version = "*", default-features = false, features = ["json"] }
rayon = "*"
