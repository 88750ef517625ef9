[package]
name = "in_web"
version = "0.1.0"
edition = "2021"
publish = false

[dependencies]
sha2 = "=0.11.1"
time = { version = "=0.3.55", features = ["formatting"] }
ulid = "=3.0.0"
topcoat = { version = "=0.6.2", features = ["multipart", "sse"] }
topcoat-core = "=0.6.2"
topcoat-core-macro = "=0.6.2"
topcoat-router = "=0.6.2"
topcoat-router-macro = "=0.6.2"
topcoat-runtime = "=0.6.2"
topcoat-view = "=0.6.2"
topcoat-view-macro = "=0.6.2"
inventory = "=0.3.25"
serde = { version = "=1.0.229", features = ["derive"] }
serde_json = "=1.0.154"
tokio = { version = "=1.54.1", features = ["full"] }
reqwest = { version = "=0.13.5", default-features = false }
futures-util = "=0.3.34"
