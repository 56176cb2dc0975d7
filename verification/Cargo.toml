[package]
name = "dlpq"
version = "0.1.0"
edition = "2021"
publish = false

[dependencies]
anyhow = "1"
chrono = "0.4"
futures = "0.3"
polars = { version = "*", default-features = false, features = ["parquet", "dtype-i8", "dtype-i16", "dtype-date", "dtype-datetime"] }
tiberius = { version = "0.12", default-features = false, features = ["tds73", "winauth", "chrono", "rustls"] }
tokio = { version = "1", features = ["net"] }
tokio-util = { version = "0.7", features = ["compat"] }
