[package]
name = "merco"
version = "0.1.0"
edition = "2021"
publish = false

[dependencies]
uuid = { version = "*", features = ["v4"] }
chrono = "*"
serde = { version = "*", features = ["derive"] }
serde_json = "*"
bigdecimal = "*"
tokio = { version = "*", features = ["full"] }
tokio-util = "*"
axum = "*"
tower-http = { version = "*", features = ["cors"] }
futures = "*"
async-stream = "*"
thiserror = "*"
libloading = "*"
toml_edit = "*"
tracing = "*"
tracing-subscriber = { version = "*", features = ["env-filter"] }
sqlx = { version = "*", default-features = false, features = ["postgres", "runtime-tokio", "chrono", "bigdecimal"] }
config = "*"
pyo3 = "*"
