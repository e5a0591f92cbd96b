[package]
name = "bedrock"
version = "0.1.0"
edition = "2021"
publish = false

[dependencies]
flate2 = "1"
fastnbt = "2"
serde = { version = "1", features = ["derive"] }
serde_json = "1"
toml = "0.8"
dirs = "5"
zip = { version = "2", default-features = false, features = ["deflate"] }
image = { version = "0.25", default-features = false, features = ["png"] }
ureq = { version = "2", features = ["json"] }
