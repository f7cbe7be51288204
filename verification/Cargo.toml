[package]
name = "broken-antler"
version = "0.1.0"
edition = "2021"
publish = false

[dependencies]
anyhow = "=1.0.104"
async-trait = "=0.1.92"
chrono = { version = "=0.4.45", features = ["serde"] }
clap = { version = "=4.6.7", features = ["derive"] }
geoutils = { version = "=0.5.1", features = ["serde"] }
indexmap = "=2.14.2"
itertools = "=0.15.0"
regex = "=1.13.1"
serde = { version = "=1.0.229", features = ["derive"] }
serde_json = "=1.0.154"
smallvec = "=1.16.5"
smol_str = "=0.3.7"
sqlx = { version = "=0.8.6", default-features = false, features = ["postgres", "runtime-tokio"] }
tokio = { version = "=1.54.1", features = ["full"] }
tower = "=0.5.3"
uuid = { version = "=1.29.1", features = ["v4", "serde"] }
