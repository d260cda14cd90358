[package]
name = "fazzk"
version = "0.1.0"
edition = "2021"
publish = false

[dependencies]
chrono = "*"
tokio = { version = "*", features = ["sync", "rt", "time", "macros", "net"] }
axum = { version = "*", features = ["ws"] }
serde = { version = "*", features = ["derive"] }
serde_json = "*"
futures-util = "*"
uuid = { version = "*", features = ["v4"] }
tower-http = { version = "*", features = ["fs", "cors"] }
reqwest = { version = "*", default-features = false, features = ["json", "rustls-tls"] }

[dev-dependencies]
