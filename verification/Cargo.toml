[package]
name = "sbom_scanner"
version = "0.1.0"
edition = "2021"
publish = false

[dependencies]
anyhow = "1"
clap = "4"
reqwest = { version = "0.12", default-features = false, features = ["json"] }
serde = { version = "1", features = ["derive"] }
serde_json = "1"
spinners = "*"
tokio = { version = "1", features = ["macros", "rt-multi-thread", "fs"] }
