[package]
name = "tf_remap"
version = "0.1.0"
edition = "2021"
publish = false

[dependencies]
anyhow = "1"
rclrs = "*"
serde = { version = "1", features = ["derive"] }
serde_yaml = "0.9"
tf2_rs = "*"
