[package]
name = "whisrs"
version = "0.1.0"
edition = "2021"
publish = false

[dependencies]
anyhow = "*"
async-trait = "*"
audio-silence-gate = "*"
ksni = "*"
notify-rust = "*"
prompt-echo = "*"
tokio = { version = "*", features = ["rt", "rt-multi-thread", "macros", "sync", "time", "net", "io-util"] }
toml_edit = "*"
tracing = "*"
xkb-type = "*"

[dev-dependencies]
hound = "*"
