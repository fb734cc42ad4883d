[package]
name = "todo_api"
version = "0.1.0"
edition = "2021"
publish = false

[dependencies]
actix-rt = "2"
actix-web = { version = "4", default-features = false, features = ["macros"] }
mongodb = { version = "2", features = ["tokio-sync"] }
serde = { version = "1", features = ["derive"] }
