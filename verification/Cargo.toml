[package]
name = "tidb_lake"
version = "0.1.0"
edition = "2021"
publish = false

[dependencies]
arrow = { version = "55", default-features = false }
async-trait = "0.1"
chrono = "0.4"
futures = "0.3"
http = "1"
prost = "0.13"
rand = "0.9"
reqwest = { version = "0.12", default-features = false, features = ["json"] }
serde = { version = "1", features = ["derive"] }
serde_json = "1"
sqlx = { version = "0.8", default-features = false, features = ["mysql", "chrono", "runtime-tokio"] }
tokio = { version = "1", features = ["full"] }
tokio-stream = "0.1"
toml = "0.8"
tonic = "0.12"
tracing = "0.1"
