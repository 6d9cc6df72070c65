[package]
name = "image_build"
version = "0.1.0"
edition = "2021"
publish = false

[dependencies]
aws-config = "1"
aws-sdk-ecr = "1"
base64 = "0.22"
bollard = { version = "0.18", features = ["buildkit"] }
dockerfile-parser = "*"
flate2 = "1"
futures-util = "0.3"
tar = "0.4"
