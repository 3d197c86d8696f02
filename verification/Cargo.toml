[package]
name = "water_http"
version = "0.1.0"
edition = "2021"
publish = false

[dependencies]
zstd = "=0.14.3"
brotli = "=9.1.1"
flate2 = "=1.1.10"
urlencoding = "=2.1.3"
water_http_utils = { version = "=0.4.2", features = ["server"] }
twoway = "=0.2.2"
tokio = { version = "=1.54.1", features = ["rt-multi-thread", "net", "io-util", "macros", "fs"] }
chrono = { version = "=0.4.45", default-features = false, features = ["clock"] }
