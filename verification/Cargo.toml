[package]
name = "ring_runtime"
version = "0.1.0"
edition = "2021"
publish = false

[dependencies]
async-trait = "0.1"
axum = { version = "*", default-features = false, features = ["tokio"] }
base64 = "0.22"
bollard = "*"
containerd-client = "*"
docker_credential = "1"
futures = "0.3"
hex = "0.4"
http-body-util = "0.1"
hyper = { version = "1", features = ["client", "http1"] }
hyper-util = { version = "0.1", features = ["client-legacy", "http1", "tokio"] }
hyperlocal = { version = "0.9", features = ["client"] }
nix = { version = "*", features = ["signal"] }
prost = "*"
prost-types = "*"
rand = "0.9"
regex = "1"
reqwest = { version = "0.12", default-features = false }
serde = { version = "1", features = ["derive"] }
serde_json = "1"
sha2 = "0.10"
shell-words = "1"
sysinfo = "*"
thiserror = "2"
tokio = { version = "1", features = ["full"] }
tokio-stream = "0.1"
tonic = "*"
tracing = "0.1"
