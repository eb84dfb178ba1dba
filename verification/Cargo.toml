[package]
name = "downloader"
version = "0.1.0"
edition = "2021"
publish = false

[dependencies]
clap = { version = "4", features = ["derive"] }
fern = { version = "0.7", features = ["colored"] }
futures-util = "0.3"
log = "0.4"
reqwest = { version = "0.12", features = ["stream"] }
tokio = { version = "1", features = ["macros", "rt-multi-thread", "signal"] }
tokio-util = "0.7"

[dev-dependencies]
http = "1"
