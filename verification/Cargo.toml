[package]
name = "kops"
version = "0.1.0"
edition = "2021"
publish = false

[dependencies]
base64 = "=0.23.1"
pem = "=4.0.0"
http = "=1.5.0"
aws-sigv4 = "=1.6.0"
aws-credential-types = "=1.3.0"
aws-smithy-runtime-api = "=1.19.0"
tokio = { version = "=1.53.2", features = ["full"] }
anyhow = "=1.0.104"
clap = { version = "=4.6.7", features = ["derive"] }
daemonize = "=0.5.0"
tracing = "=0.1.44"
tracing-subscriber = { version = "=0.3.23", features = ["env-filter"] }
futures = "=0.3.34"
serde = { version = "=1.0.229", features = ["derive"] }
dialoguer = "=0.12.0"
webbrowser = "=1.2.4"
rustls = "=0.23.45"
aws-config = "=1.12.0"
aws-sdk-eks = "=1.153.0"
aws-sdk-sso = "=1.114.0"
aws-sdk-ssooidc = "=1.116.0"
kube = { version = "=3.1.0", features = ["client", "runtime"] }
kube-runtime = "=3.1.0"
k8s-openapi = { version = "=0.27.1", features = ["latest"] }
