[package]
name = "csv_report"
version = "0.1.0"
edition = "2021"
publish = false

[dependencies]
datafusion = { version = "=55.1.0", default-features = false }
tokio = { version = "*", features = ["macros", "rt-multi-thread"] }
