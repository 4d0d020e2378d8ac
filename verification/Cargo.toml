[package]
name = "app_controller"
version = "0.1.0"
edition = "2021"
publish = false

[dependencies]
async-trait = "=0.1.92"
bollard = "=0.19.4"
futures-util = "=0.3.34"
k8s-openapi = { version = "=0.25.0", features = ["latest"] }
kube = "=1.1.0"
poem = "=3.1.12"
poem-openapi = { version = "=5.1.16", features = ["rapidoc"] }
rand = "=0.9.5"
serde = { version = "=1.0.229", features = ["derive"] }
serde_json = "=1.0.154"
strum = { version = "=0.27.2", features = ["derive"] }
thiserror = "=2.0.21"
tokio = { version = "=1.54.1", features = ["full"] }
tracing = "=0.1.44"
tracing-subscriber = "=0.3.23"
