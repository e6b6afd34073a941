[package]
name = "kubers_sample"
version = "0.1.0"
edition = "2021"
publish = false

[dependencies]
rand = "0.8"
prometheus = { version = "0.13", default-features = false }
kube = { version = "0.58", default-features = false, features = ["client", "rustls-tls", "derive"] }
kube-runtime = "0.58"
k8s-openapi = { version = "0.12", default-features = false, features = ["v1_20"] }
schemars = "0.8"
serde = { version = "1", features = ["derive"] }
serde_json = "1"
tokio = { version = "1", features = ["macros", "rt-multi-thread"] }
futures = "0.3"
actix-web = { version = "4", default-features = false, features = ["macros"] }
actix-rt = "2"
tracing = "0.1"
