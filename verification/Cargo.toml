[package]
name = "inventario_api"
version = "0.1.0"
edition = "2021"
publish = false

[dependencies]
axum = "*"
tokio = { version = "*", features = ["rt-multi-thread", "net", "macros"] }
tower-http = { version = "*", features = ["trace"] }
tracing = "*"
tracing-subscriber = { version = "*", features = ["env-filter", "fmt"] }
color-eyre = "*"
sqlx = { version = "*", default-features = false, features = ["migrate"] }
redis = { version = "*", default-features = false }
jsonwebtoken = "*"
thiserror = "*"
