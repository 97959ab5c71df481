[package]
name = "stackable_versioned"
version = "0.1.0"
edition = "2021"
publish = false

[dependencies]
k8s-openapi = { version = "=0.28.0", features = ["latest"] }
kube = { version = "=4.2.0", default-features = false, features = ["client", "derive"] }
proc-macro2 = "=1.0.107"
quote = "=1.0.47"
schemars = "=1.2.3"
serde = { version = "=1.0.229", features = ["derive"] }
serde_json = "=1.0.154"
syn = "=3.0.9"
