[package]
name = "country_browser"
version = "0.1.0"
edition = "2021"
publish = false

[dependencies]
reqwest = { version = "*", default-features = false, features = ["json"] }
serde = { version = "*", features = ["derive"] }
tokio = { version = "*", default-features = false, features = ["rt-multi-thread", "macros"] }
