[package]
name = "dream"
version = "0.1.0"
edition = "2021"
publish = false

[dependencies]
serde = { version = "1", features = ["derive"] }
serde_json = "1"
sha2 = "0.10"
toml_edit = "0.22"
reqwest = { version = "0.12", default-features = false, features = ["blocking"] }
