[package]
name = "prompt_context"
version = "0.1.0"
edition = "2021"
publish = false

[dependencies]
aho-corasick = "=1.1.5"
anyhow = "=1.0.104"
fluent-bundle = "=0.16.0"
rig-core = "=0.31.0"
serde = { version = "=1.0.229", features = ["derive"] }
serde_json = "=1.0.154"
strum = "=0.28.0"
strum_macros = "=0.28.0"
thiserror = "=2.0.21"
unic-langid = "=0.9.6"
