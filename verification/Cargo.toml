[package]
name = "srun"
version = "0.1.0"
edition = "2021"
publish = false

[dependencies]
hmac = "=0.12.1"
md-5 = "=0.10.6"
sha1 = "=0.10.7"
serde = { version = "=1.0.229", features = ["derive"] }
serde_json = "=1.0.154"
jni = "=0.21.1"
quick-error = "=2.0.1"
ureq = { version = "2", default-features = false }
