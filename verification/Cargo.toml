[package]
name = "md2db"
version = "0.1.0"
edition = "2021"
publish = false

[dependencies]
sha2 = "=0.11.0"
pulldown-cmark = "=0.13.4"
zip = { version = "=8.6.0", default-features = false, features = ["deflate"] }
uuid = { version = "=1.27.0", features = ["v4", "serde"] }
chrono = { version = "=0.4.45", features = ["serde"] }
anyhow = "*"
serde = { version = "*", features = ["derive"] }
serde_json = "*"
tokio = { version = "*", features = ["rt-multi-thread", "macros", "net", "sync"] }
axum = { version = "*", features = ["multipart"] }
tower = "*"
tower-http = { version = "*", features = ["trace", "compression-gzip"] }
tracing = "*"
tracing-subscriber = "*"
async-trait = "*"
futures = "*"

[dev-dependencies]
rayon = "*"
