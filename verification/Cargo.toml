[package]
name = "pidgeon"
version = "0.1.0"
edition = "2021"
publish = false

[dependencies]
tokio-modbus = { version = "*", default-features = false, features = ["tcp", "rtu"] }
regex = "*"
rust_decimal = "*"
chrono = { version = "*", features = ["serde"] }
chrono-tz = "*"
itertools = "*"
serde = { version = "*", features = ["derive"] }
serde_json = "*"
serde_yaml = "*"
toml = "*"
clap = { version = "*", features = ["derive"] }
tokio = { version = "*", features = ["full"] }
futures = "*"
futures-time = "*"
flume = "*"
reqwest = { version = "*", default-features = false, features = ["json", "rustls-tls", "gzip"] }
sqlx = { version = "*", default-features = false, features = ["runtime-tokio", "postgres", "chrono", "json", "ipnetwork", "migrate"] }
thiserror = "*"
anyhow = "*"
tracing = "*"
tracing-subscriber = { version = "*", features = ["env-filter"] }
cron = "*"
tokio-cron-scheduler = "*"
directories = "*"
dotenv = "*"
uuid = { version = "*", features = ["v4"] }
ipnet = "*"
netdev = "*"
serialport = { version = "*", default-features = false }
either = "*"
