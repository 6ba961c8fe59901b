[package]
name = "scx_control"
version = "0.1.0"
edition = "2021"
publish = false

[dependencies]
anyhow = "1"
chrono = "0.4"
clap = { version = "4", features = ["derive"] }
colored = "*"
ctrlc = "3"
log = "0.4"
nix = { version = "*", features = ["signal"] }
ratatui = "0.29"
serde_json = "1"
shell-words = "1"
sysinfo = "*"
tokio = { version = "1", features = ["full"] }
tokio-util = "0.7"
zbus = { version = "5", features = ["tokio"] }
zbus_polkit = "5"
