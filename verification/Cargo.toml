[package]
name = "pc_booster"
version = "0.1.0"
edition = "2021"
publish = false

[dependencies]
sysinfo = "0.33"
clap = { version = "=4.6.7", features = ["derive"] }
colored = "=3.1.1"
crossterm = "0.28"
ctrlc = "=3.5.2"
ratatui = "0.29"
tokio = { version = "=1.54.1", features = ["rt-multi-thread", "time", "sync", "macros"] }
windows = { version = "0.58", features = ["Win32_Foundation", "Win32_System_Services"] }
serde_json = "=1.0.154"
