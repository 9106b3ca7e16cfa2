[package]
name = "portfolio_core"
version = "0.1.0"
edition = "2021"
publish = false

[dependencies]
base64 = "=0.23.1"
dotenv = "=0.15.0"
reqwest = { version = "=0.13.5", default-features = false, features = ["blocking", "form", "query"] }

[dev-dependencies]
serde_json = "=1.0.151"
