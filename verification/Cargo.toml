[package]
name = "volleyscore"
version = "0.1.0"
edition = "2021"
publish = false

[dependencies]
time = { version = "0.3", features = ["parsing", "formatting"] }
axum = { version = "0.7", features = ["ws"] }
axum-htmx = "0.6"
maud = "0.26"
tokio = { version = "1", features = ["rt-multi-thread", "macros", "net", "sync"] }
futures-util = "0.3"
uuid = { version = "1", features = ["v4"] }
serde = { version = "1", features = ["derive"] }
