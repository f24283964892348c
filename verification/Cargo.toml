[package]
name = "enorm"
version = "0.1.0"
edition = "2021"
publish = false

[dependencies]
futures = "=0.3.34"
proc-macro2 = "=1.0.107"
quote = "=1.0.47"
sqlx = { version = "=0.8.6", default-features = false, features = ["runtime-tokio", "sqlite", "mysql", "postgres", "uuid"] }
syn = { version = "=2.0.119", features = ["full"] }
tokio = { version = "=1.54.1", features = ["rt", "rt-multi-thread", "macros"] }
uuid = { version = "=1.29.0", features = ["v4"] }
