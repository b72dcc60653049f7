[package]
name = "libsql_shell"
version = "0.2.0"
edition = "2021"
publish = false

[dependencies]
anyhow = "1"
base64 = "0.21"
clap = { version = "4", features = ["derive"] }
home = "0.5"
rusqlite = "0.28"
rustyline = "11"
tabled = "0.10"
tracing-subscriber = "0.3"
