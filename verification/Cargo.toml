[package]
name = "openapi_mir"
version = "0.1.0"
edition = "2021"
publish = false

[dependencies]
anyhow = "*"
clap = { version = "*", features = ["derive"] }
convert_case = "*"
openapiv3 = "*"
serde_json = "*"
