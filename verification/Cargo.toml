[package]
name = "graphql_to_avro"
version = "0.1.0"
edition = "2021"
publish = false

[dependencies]
clap = { version = "*", features = ["derive"] }
graphql-parser = "*"
serde = "*"
serde_json = "*"
