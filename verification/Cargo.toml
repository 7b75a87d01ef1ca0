[package]
name = "prolock"
version = "0.1.0"
edition = "2021"
publish = false

[dependencies]
anyhow = "1"
ansi_term = "0.12"
clap = { version = "4", features = ["cargo"] }
dirs = "*"
fd-lock = "4"
jiff = { version = "0.2", features = ["serde"] }
oxilangtag = "*"
pwsec = "*"
rand = "0.9"
secstr = "*"
sequential = "*"
serde = { version = "1", features = ["derive"] }
serde_json = "1"
sys-locale = "*"
