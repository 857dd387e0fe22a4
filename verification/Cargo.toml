[package]
name = "options_trader"
version = "0.1.0"
edition = "2021"
publish = false

[dependencies]
rust_decimal = "1"
rust_decimal_macros = "1"
chrono = "0.4"
percent-encoding = "2"
uuid = "1"
serde = { version = "1", features = ["derive"] }
serde_json = "1"
anyhow = "1"
tokio = { version = "1", features = ["rt-multi-thread", "macros", "sync", "time", "signal"] }
tokio-util = "0.7"
tracing = "0.1"
tracing-subscriber = "0.3"
clap = { version = "4", features = ["derive"] }
url = "2"
futures-util = { version = "0.3", features = ["sink"] }
tokio-tungstenite = { version = "*", features = ["native-tls"] }
native-tls = "0.2"
flate2 = "1"
surf = { version = "2", default-features = false, features = ["h1-client-rustls"] }
sqlx = { version = "0.8", default-features = false, features = ["postgres", "runtime-tokio", "macros", "chrono"] }
