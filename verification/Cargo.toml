[package]
name = "northcloud_oculus"
version = "0.1.0"
edition = "2021"
publish = false

[dependencies]
serde = { version = "1", features = ["derive"] }
serde_json = "1"
urlencoding = "2"
redis = "0.27"
reqwest = { version = "0.12", default-features = false, features = ["json"] }
async-trait = "0.1"
rand = "0.8"
glam = "0.30"
ab_glyph = "0.2"
