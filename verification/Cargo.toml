[package]
name = "clipcat"
version = "0.1.0"
edition = "2021"
publish = false

[dependencies]
directories = "4"
serde = { version = "1", features = ["derive"] }
snafu = "0.7"
tokio = { version = "1", features = ["macros", "rt-multi-thread", "sync", "signal", "net", "io-util", "time"] }
toml = "0.5"
tracing = "0.1"
