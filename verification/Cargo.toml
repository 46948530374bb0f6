[package]
name = "score_websites"
version = "0.1.0"
edition = "2021"
publish = false

[dependencies]
csv = "*"
futures = "*"
html-escape = "*"
regex = "*"
reqwest = { version = "0.12", default-features = false, features = ["charset", "json"] }
serde = { version = "*", features = ["derive"] }
serde_json = "*"
serde_repr = "*"
tokio = { version = "*", features = ["macros", "rt"] }
tokio-stream = "*"
