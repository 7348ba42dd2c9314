[package]
name = "izdu_slicer"
version = "0.1.0"
edition = "2021"
publish = false

[dependencies]
image = "0.24"
base64 = "0.21"
rusttype = "0.9"
reqwest = { version = "0.11", default-features = false }
actix-web = { version = "4", default-features = false, features = ["macros"] }
serde = { version = "1", features = ["derive"] }
serde_json = "1"
futures = "0.3"
anyhow = "1"
