[package]
name = "website_crawler"
version = "0.1.0"
edition = "2021"
publish = false

[dependencies]
case_insensitive_string = { version = "=0.1.7", features = ["compact"] }
compact_str = "=0.7.1"
hashbrown = "=0.13.2"
num_cpus = "=1.17.0"
reqwest = { version = "=0.11.27", default-features = false, features = ["brotli", "rustls-tls"] }
sitemap = "=0.4.1"
smallvec = "=1.16.4"
tokio = { version = "=1.54.1", features = ["rt", "rt-multi-thread", "sync", "time", "macros"] }
tokio-stream = { version = "=0.1.19", features = ["time"] }
tonic = { version = "=0.9.2", default-features = false }
url = "=2.5.8"
