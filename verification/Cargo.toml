[package]
name = "leanpub_login"
version = "0.1.0"
edition = "2021"
publish = false

[dependencies]
dotenvy = "*"
playwright = "*"
serde = { version = "*", features = ["derive"] }
tokio = { version = "*", features = ["macros", "rt-multi-thread", "time"] }
