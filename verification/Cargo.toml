[package]
name = "upm"
version = "0.1.0"
edition = "2021"
publish = false

[dependencies]
anyhow = "1"
async-trait = "0.1"
libc = "0.2"
log = "0.4"
nix = { version = "0.29", features = ["user", "process", "fs"] }
num_cpus = "1"
regex = "1"
serde = { version = "1", features = ["derive"] }
sqlx = { version = "0.8", default-features = false, features = ["sqlite", "runtime-tokio"] }
thiserror = "1"
tokio = { version = "1", features = ["rt", "rt-multi-thread", "process", "fs", "macros", "io-util"] }
toml = "0.8"
uuid = { version = "1", features = ["v4"] }
