[package]
name = "chipsmith"
version = "0.1.0"
edition = "2021"
publish = false

[dependencies]
dirs = "*"
glob = "*"
facet = "*"
facet-json = "*"
facet-toml = "*"
figue = "*"
tokio = { version = "1", features = ["full"] }
async-trait = "*"
futures-util = "*"
reqwest = { version = "*", default-features = false, features = ["stream", "rustls-tls"] }
