[package]
name = "upnp_media_server"
version = "0.1.0"
edition = "2021"
publish = false

[dependencies]
anyhow = "1"
askama = "0.12"
askama_axum = "0.4"
audiotags = "0.5"
axum = "0.7"
axum-extra = { version = "0.9", features = ["typed-header", "typed-routing"] }
base64 = "0.22"
chrono = "0.4"
config-manager = "*"
futures-util = "0.3"
mime = "0.3"
mime_guess = "2"
quick-xml = { version = "0.31", features = ["serialize"] }
serde = { version = "1", features = ["derive"] }
socket2 = { version = "0.5", features = ["all"] }
strum = { version = "0.26", features = ["derive"] }
tokio = { version = "1", features = ["fs", "macros", "net", "rt", "signal", "sync", "time"] }
tower-http = { version = "0.5", features = ["trace"] }
tracing = "0.1"
tracing-subscriber = "0.3"
uuid = { version = "1", features = ["serde"] }
