[package]
name = "kubectl_rs"
version = "0.1.0"
edition = "2021"
publish = false

[dependencies]
clap = { version = "4", features = ["derive"] }
colored_json = "*"
k8s-openapi = { version = "*", features = ["latest"] }
kube = "*"
kube-core = "*"
serde = { version = "1", features = ["derive"] }
serde_json = "1"
serde_json_path = "*"
serde_yaml = "*"
shellexpand = "*"
tabprinter = "*"
tokio = { version = "1", features = ["macros", "rt-multi-thread"] }
