[package]
name = "wellness_core"
version = "0.1.0"
edition = "2021"
publish = false

[dependencies]
jsonwebtoken = { version = "=11.1.0", features = ["rust_crypto"] }
chrono = "=0.4.45"
serde = { version = "=1.0.229", features = ["derive"] }
serde_json = "=1.0.151"
rand = "=0.10.3"
dotenv = "=0.15.0"
reqwest = { version = "=0.13.5", default-features = false, features = ["blocking", "form", "json"] }
