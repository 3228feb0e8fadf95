[package]
name = "mssql_parquet"
version = "0.1.0"
edition = "2021"
publish = false

[dependencies]
anyhow = "*"
clap = { version = "*", features = ["derive"] }
indicatif = "*"
parquet = { version = "*", default-features = false, features = ["snap"] }
tiberius = "*"
tokio = { version = "*", features = ["full"] }
tokio-stream = "*"
tokio-util = { version = "*", features = ["compat"] }

[dev-dependencies]
bytes = "*"
