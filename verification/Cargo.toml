[package]
name = "titanpl"
version = "0.1.0"
edition = "2021"
publish = false

[dependencies]
oxc = { version = "0.108", features = ["semantic"] }
serde_json = "1"
serde = { version = "1", features = ["derive"] }
bytes = "1"
smallvec = "1"
crossbeam = "0.8"
tokio = { version = "1", features = ["rt-multi-thread", "macros", "sync", "net", "time"] }
axum = "0.7"
anyhow = "1"
dotenvy = "0.15"
num_cpus = "1"
walkdir = "2"
libloading = "0.8"
reqwest = { version = "0.12", default-features = false, features = ["blocking", "rustls-tls"] }
bcrypt = "0.15"
jsonwebtoken = "9"
v8 = "*"
