[package]
name = "shaysbot"
version = "0.1.0"
edition = "2021"
publish = false

[dependencies]
anyhow = "=1.0.104"
base64 = "=0.22.1"
chrono = "=0.4.45"
ncr = { version = "=0.1.2", features = ["cfb8", "ecb", "gcm"] }
rand = "=0.8.8"
semver = "=1.0.28"
serde = { version = "=1.0.229", features = ["derive"] }
serde_json = "=1.0.154"
serenity = "=0.12.5"
terminal-link = "=0.1.0"
tiny_http = "=0.12.0"
tokio = { version = "=1.54.1", features = ["rt", "macros", "time"] }
ureq = { version = "=3.5.1", features = ["json"] }
uuid = { version = "=1.29.0", features = ["serde"] }

[dev-dependencies]
regex = "=1.13.1"
