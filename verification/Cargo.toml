[package]
name = "evobot_sequence_native"
version = "0.1.0"
edition = "2021"
publish = false

[dependencies]
jni = "=0.21.1"
tokio = { version = "=1.53.2", features = ["rt", "time"] }
log = "=0.4.34"
android_logger = "=0.15.1"
lazy_static = "=1.5.1"
serde = { version = "=1.0.229", features = ["derive"] }
thiserror = "=2.0.21"
env_logger = "=0.11.11"
