[package]
name = "pattern_database"
version = "0.1.0"
edition = "2021"
publish = false

[dependencies]
anyhow = "=1.0.104"
async-trait = "=0.1.92"
bigdecimal = { version = "=0.4.11", features = ["serde"] }
bincode = "=1.3.3"
chrono = { version = "=0.4.45", default-features = false, features = ["clock", "serde", "std"] }
fake = { version = "=5.1.0", default-features = false }
fastrand = "=2.5.0"
futures = { version = "=0.3.34", default-features = false, features = ["std"] }
md5 = "=0.7.0"
num-bigint = "=0.4.8"
num_cpus = "=1.17.0"
once_cell = "=1.21.4"
rayon = "=1.12.0"
serde = { version = "=1.0.229", features = ["derive"] }
serde_json = "=1.0.154"
splimes = "=0.1.0"
sysinfo = { version = "=0.40.1", default-features = false, features = ["system"] }
thiserror = "=2.0.21"
tokio = { version = "=1.54.1", features = ["sync", "time", "rt"] }
tracing = "=0.1.44"
turso = { version = "=0.8.3", default-features = false }
uuid = { version = "=1.29.0", features = ["v4", "serde"] }
wide = "=1.7.1"
