[package]
name = "headmaster"
version = "0.1.0"
edition = "2021"
publish = false

[dependencies]
axum = { version = "0.8", default-features = false, features = ["http1", "json", "query", "tokio"] }
axum-server = { version = "0.8", features = ["tls-rustls"] }
clap = { version = "4.5", features = ["derive"] }
futures = "0.3"
hex = "0.4"
jiff = "0.2"
jsonc-parser = { version = "0.32", features = ["cst", "serde"] }
k8s-openapi = { version = "0.27", features = ["latest", "schemars"] }
k8s-openapi-ext = "*"
kube = { version = "3.1", features = ["runtime", "derive", "admission", "ws"] }
rand = "0.8"
reqwest = { version = "0.12", default-features = false }
schemars = "1"
serde = { version = "1", features = ["derive"] }
serde-saphyr = "0.0.29"
serde_json = "1"
serde_yaml = "0.9"
sha2 = "0.10"
thiserror = "2"
tokio = { version = "1", features = ["rt-multi-thread", "macros", "net", "fs", "io-util", "sync", "signal", "time"] }
tokio-util = "0.7"
tracing = "0.1"
tracing-subscriber = { version = "0.3", features = ["env-filter"] }
uuid = { version = "1", features = ["v4"] }
