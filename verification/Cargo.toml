[package]
name = "glm_reasoning"
version = "0.1.0"
edition = "2021"
publish = false

[dependencies]
serde_json = "1.0"
url = "2.5"
