[package]
name = "rbgg"
version = "0.1.0"
edition = "2021"
publish = false

[dependencies]
anyhow = "=1.0.104"
reqwest = { version = "=0.13.5", default-features = false, features = ["blocking"] }
serde_json = "=1.0.151"
tokio = { version = "=1.53.2", default-features = false, features = ["time"] }
xmltojson = "=0.1.3"

[dev-dependencies]
urlencoding = "=2.1.3"
