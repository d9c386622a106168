[package]
name = "rbac_organization"
version = "0.1.0"
edition = "2021"
publish = false

[dependencies]
uuid = { version = "1", features = ["v4"] }
anyhow = "1"
sqlx = { version = "0.8", default-features = false, features = ["postgres", "runtime-tokio"] }
