[package]
name = "seichi_ranking"
version = "0.1.0"
edition = "2021"
publish = false

[dependencies]
actix-web = "4"
anyhow = "1"
async-lock = "*"
async-trait = "0.1"
chrono = "0.4"
envy = "0.4"
fern = { version = "0.6", features = ["colored"] }
log = "0.4"
once_cell = "1"
qstring = "0.7"
serde = { version = "1", features = ["derive"] }
serde_json = "1"
strum = { version = "*", features = ["derive"] }
tokio = { version = "1", features = ["macros", "rt-multi-thread", "time"] }
uuid = { version = "1", features = ["serde"] }
