[package]
name = "s5ci"
version = "0.5.0"
edition = "2021"
publish = false

[dependencies]
regex = "=1.13.1"
chrono = { version = "=0.4.45", features = ["serde"] }
cron = "=0.17.0"
mustache = "=0.9.0"
serde = { version = "1", features = ["derive"] }
serde_derive = "1"
serde_json = "1"
serde_yaml = "0.8"
yaml-rust = "0.4"
clap = "2"
diesel = { version = "1.4", features = ["sqlite", "chrono"] }
libsqlite3-sys = { version = "*", features = ["bundled"] }
dotenv = "0.15"
env_logger = "*"
envy = "0.4"
exec = "0.3"
lazy_static = "1"
libc = "0.2"
log = "0.4"
r2d2 = "0.8"
r2d2-diesel = "1.0"
signal-hook = "0.1"
ssh2 = "0.3"
uuid = { version = "1", features = ["v4"] }
