[package]
name = "algocline-app"
version = "0.1.0"
edition = "2021"
publish = false

[dependencies]
dirs = "=7.0.0"
dotenvy = "=0.15.7"
flate2 = "=1.1.10"
libc = "=0.2.191"
mlua = { version = "=0.11.6", features = ["lua54", "vendored"] }
mlua-lspec = "=0.3.0"
rand = "=0.10.3"
semver = "=1.0.28"
serde = { version = "=1.0.229", features = ["derive"] }
serde_json = "=1.0.154"
sha2 = "=0.10.9"
tar = "=0.4.46"
tempfile = "=3.27.0"
thiserror = "=2.0.21"
tokio = { version = "=1.54.1", features = ["macros", "process", "rt", "sync", "time"] }
toml = "=0.8.23"
toml_edit = "=0.22.27"
tracing = "=0.1.44"
