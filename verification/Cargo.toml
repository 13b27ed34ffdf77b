[package]
name = "trawler_mysql"
version = "0.1.0"
edition = "2021"
publish = false

[dependencies]
chrono = "=0.4.45"
clap = "=2.34.0"
failure = "=0.1.8"
rusoto_core = "=0.46.0"
rusoto_sts = "=0.46.0"
tokio = { version = "=1.54.1", features = ["rt-multi-thread"] }
tracing-subscriber = { version = "=0.2.25", default-features = false, features = ["fmt"] }
tsunami = { version = "=0.11.1", default-features = false, features = ["aws"] }
