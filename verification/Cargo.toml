[package]
name = "grease"
version = "0.1.1"
edition = "2021"
publish = false

[dependencies]
toml = "=1.1.8"
clap = { version = "=4.6.7", features = ["derive"] }
clap_complete = "4"
clap_mangen = "*"
tokio = { version = "1", features = ["rt-multi-thread", "io-std"] }
tower-lsp = "*"
