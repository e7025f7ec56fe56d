[package]
name = "scdm"
version = "0.1.0"
edition = "2021"
publish = false

[dependencies]
anyhow = "*"
chrono = { version = "*", features = ["serde"] }
clap = { version = "*", features = ["derive"] }
csv = "*"
opensearch = "*"
serde = { version = "*", features = ["derive"] }
serde_json = "*"
sqlx = { version = "*", features = ["postgres", "runtime-tokio", "chrono", "uuid"] }
tokio = { version = "*", features = ["macros", "rt-multi-thread"] }
tabled = { version = "*", features = ["derive"] }
thiserror = "*"
uuid = { version = "*", features = ["v4", "serde"] }
