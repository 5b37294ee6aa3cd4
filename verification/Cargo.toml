[package]
name = "tauri_dumper"
version = "0.1.0"
edition = "2021"
publish = false

[dependencies]
object = "*"
brotli = "*"
anyhow = "*"
clap = { version = "*", features = ["derive"] }
memmap2 = "*"
normalize-path = "*"
