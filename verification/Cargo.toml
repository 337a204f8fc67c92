[package]
name = "influx_loadgen"
version = "0.1.0"
edition = "2021"
publish = false

[dependencies]
anyhow = "1"
async-compression = { version = "0.4", features = ["tokio", "gzip"] }
bytes = "1"
clap = { version = "4", features = ["derive", "env"] }
futures = "0.3"
futures-concurrency = "7"
http = "1"
rand = "0.9"
reqwest = "0.12"
tokio = { version = "1", features = ["macros", "rt-multi-thread", "io-util", "time"] }
tracing = "0.1"
tracing-log = "0.2"
tracing-subscriber = { version = "0.3", features = ["env-filter"] }

[dev-dependencies]
flate2 = "1"
