[package]
name = "line_oauth"
version = "0.1.0"
edition = "2021"
publish = false

[dependencies]
oauth2 = { version = "5", default-features = false }
uuid = { version = "1", features = ["v4"] }
axum = "0.7"
axum-extra = { version = "0.9", features = ["cookie"] }
tokio = { version = "1", features = ["macros", "rt-multi-thread", "net"] }
serde = { version = "1", features = ["derive"] }
serde_json = "1"
reqwest = { version = "0.12", default-features = false, features = ["json"] }
dotenv = "0.15"
