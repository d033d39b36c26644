[package]
name = "markdown_viewer"
version = "0.1.0"
edition = "2021"
publish = false

[dependencies]
anyhow = "*"
comrak = "*"
image = "*"
notify = "*"
notify-debouncer-full = "*"
reqwest = { version = "*", default-features = false }
resvg = "*"
ron = "*"
serde = { version = "*", features = ["derive"] }
serde_json = "*"
tokio = { version = "*", default-features = false, features = ["rt-multi-thread"] }
