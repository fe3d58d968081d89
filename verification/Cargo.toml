[package]
name = "routehost"
version = "0.1.0"
edition = "2021"
publish = false

[dependencies]
tokio = { version = "*", features = ["rt", "rt-multi-thread", "macros", "net", "sync", "time"] }
axum = "*"
serde_json = "*"
futures = "*"
sqlx = { version = "*", features = ["any", "sqlite", "runtime-tokio"] }
deno_core = "*"
