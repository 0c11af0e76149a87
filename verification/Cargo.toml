[package]
name = "helvar_cgi"
version = "0.1.0"
edition = "2021"
publish = false

[dependencies]
tokio = { version = "*", features = ["full"] }
async-trait = "*"
serde_json = "*"
