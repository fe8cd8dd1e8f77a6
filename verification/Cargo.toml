[package]
name = "edge_gateway"
version = "0.1.0"
edition = "2021"
publish = false

[dependencies]
actix-web = { version = "4", default-features = false, features = ["macros"] }
reqwest = { version = "0.11", default-features = false }
redis = { version = "0.25", features = ["tokio-comp"] }
tokio = { version = "1", features = ["sync", "rt", "macros"] }
dotenv = "0.15"
regex = "1"
