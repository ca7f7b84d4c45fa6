[package]
name = "blinker_core"
version = "0.1.0"
edition = "2021"
publish = false

[dependencies]
ammonia = "*"
blake3 = { version = "*", default-features = false, features = ["pure"] }
epub = "*"
fontdue = "*"
image = { version = "*", default-features = false, features = ["bmp", "gif", "jpeg", "png", "webp"] }
natord = "*"
pdfium-render = "*"
pulldown-cmark = { version = "*", default-features = false }
rusqlite = { version = "*", features = ["bundled"] }
serde = { version = "*", features = ["derive"] }
serde_json = "*"
tokio = { version = "*", features = ["macros", "rt"] }
tracing = "*"
tracing-subscriber = "*"
uuid = { version = "*", features = ["v4"] }
zip = { version = "*", default-features = false, features = ["deflate"] }
