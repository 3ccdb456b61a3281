[package]
name = "crawler"
version = "0.1.0"
edition = "2021"
publish = false

[dependencies]
url = "*"
tokio = { version = "*", features = ["macros", "rt-multi-thread"] }
async-channel = "*"
reqwest = { version = "*", default-features = false }
clap = { version = "*", features = ["derive"] }
dotenv = "*"
tracing = "*"
tracing-subscriber = "*"
serde = { version = "*", features = ["derive"] }
struson = { version = "*", features = ["serde"] }
