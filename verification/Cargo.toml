[package]
name = "pangpang"
version = "0.1.0"
edition = "2021"
publish = false

[dependencies]
ssh2 = "0.9"
tokio = { version = "1", features = ["full"] }
hyper = { version = "0.14", features = ["client", "server", "http1", "tcp"] }
thrussh = "0.33"
thrussh-keys = "0.21"
serde = { version = "1", features = ["derive"] }
serde_yaml = "0.8"
log = "0.4"
async-trait = "0.1"
alacritty_terminal = "0.16"
clipboard = "0.5"
