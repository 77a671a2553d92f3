[package]
name = "ssh-agent-mux"
version = "0.2.0"
edition = "2021"
publish = false

[dependencies]
chrono = { version = "0.4", default-features = false, features = ["std", "clock"] }
clap-serde-derive = "*"
color-eyre = "*"
expand-tilde = "*"
log = "0.4"
notify = "*"
notify-debouncer-full = "*"
sd-notify = "*"
serde = { version = "1", features = ["derive"] }
serde_json = { version = "1", features = ["preserve_order"] }
ssh-agent-lib = "*"
tokio = { version = "1", features = ["rt", "net", "io-util", "sync", "signal", "time", "macros", "fs"] }
toml = "*"

[dev-dependencies]
tempfile = "3"
