[package]
name = "flint_ai"
version = "0.1.0"
edition = "2021"
publish = false

[dependencies]
anyhow = "=1.0.104"
clap = { version = "=4.6.7", default-features = false, features = ["derive", "std", "help", "usage", "error-context"] }
encoding_rs = "=0.8.44"
image = { version = "=0.25.10", default-features = false, features = ["bmp", "dds", "ff", "gif", "hdr", "ico", "jpeg", "png", "pnm", "qoi", "tga", "webp"] }
imageproc = { version = "=0.25.1", default-features = false }
koharu-torch = { version = "=0.62.0-alpha.1", default-features = false }
libloading = "=0.8.9"
pd-vm = { version = "=0.23.1", default-features = false, features = ["runtime"] }
serde_json = "=1.0.154"
tokenizers = { version = "=0.22.2", default-features = false, features = ["fancy-regex"] }
tokio = { version = "=1.54.1", features = ["rt", "rt-multi-thread", "macros"] }
