[package]
name = "entangle"
version = "0.1.0"
edition = "2021"
publish = false

[dependencies]
bitcoin = { version = "=0.32.102", features = ["serde", "base64"] }
serde = { version = "=1.0.229", features = ["derive"] }
serde_json = "=1.0.154"
clap = { version = "=4.6.7", features = ["derive", "env"] }
axum = "=0.8.9"
tokio = { version = "=1.54.1", features = ["rt-multi-thread", "macros", "net", "sync"] }
reqwest = { version = "=0.12.28", default-features = false, features = ["json", "rustls-tls"] }
leptos = { version = "=0.8.23", features = ["ssr"] }
leptos_axum = "=0.8.10"
leptos_meta = { version = "=0.8.7", features = ["ssr"] }
leptos_router = { version = "=0.8.17", features = ["ssr"] }
