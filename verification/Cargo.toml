[package]
name = "search_projection"
version = "0.1.0"
edition = "2021"
publish = false

[dependencies]
serde_json = "1"
pgrx = { version = "0.11", default-features = false, features = ["pg16"] }
