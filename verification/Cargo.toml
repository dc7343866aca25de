[package]
name = "mdbook-bookshelf"
version = "0.1.0"
edition = "2021"
publish = false

[dependencies]
anyhow = "1"
clap = "4"
mdbook-driver = "*"
mdbook-summary = "*"
mdbook-preprocessor = "*"
mdbook-markdown = "*"
pulldown-cmark-to-cmark = "*"
serde = { version = "1", features = ["derive"] }
serde_json = "1"
toml = "*"
tokio = { version = "1", features = ["rt", "net", "sync"] }
axum = { version = "*", features = ["ws"] }
tower-http = { version = "*", features = ["fs"] }
