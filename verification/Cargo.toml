[package]
name = "wundergraph_bench"
version = "0.1.0"
edition = "2021"
publish = false

[dependencies]
actix = "0.5"
actix-web = { version = "0.6", default-features = false }
diesel = { version = "1.3", default-features = false, features = ["postgres"] }
futures = "0.1"
juniper = "0.9"
num_cpus = "1"
serde = { version = "1", features = ["derive"] }
serde_json = "1"
