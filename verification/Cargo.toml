[package]
name = "samserve"
version = "0.1.0"
edition = "2021"
publish = false

[dependencies]
base64 = "0.21"
clap = { version = "4", features = ["derive"] }
futures-util = "0.3"
hyper = { version = "0.14", features = ["http1", "server", "tcp", "stream"] }
log = "0.4"
mime_guess = "2"
multer = "2"
sanitize-filename = "*"
simple_logger = "*"
tokio = { version = "1", features = ["fs", "io-util", "macros", "net", "rt-multi-thread"] }
tokio-util = { version = "0.7", features = ["io"] }
