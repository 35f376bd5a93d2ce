[package]
name = "edmdata"
version = "0.1.0"
edition = "2021"
publish = false

[dependencies]
itertools = "=0.15.0"
regex = "=1.13.1"
chrono = { version = "=0.4.45", features = ["serde"] }
bson = { version = "=3.1.0", features = ["chrono-0_4", "serde"] }
mongodb = { version = "=3.9.1", features = ["bson-3"] }
tokio = { version = "=1.54.1", features = ["macros", "rt-multi-thread"] }
reqwest = { version = "=0.13.5", features = ["json"] }
serde = { version = "=1.0.229", features = ["derive"] }
serde_json = "=1.0.154"
serde_repr = "=0.1.21"
futures-util = "=0.3.34"
tracing = "=0.1.44"
tracing-subscriber = "=0.3.23"
svg = "=0.18.0"
resvg = "=0.49.0"
derive_more = { version = "=2.1.1", features = ["full"] }
