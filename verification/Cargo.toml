[package]
name = "songsearch"
version = "0.1.0"
edition = "2021"
publish = false

[dependencies]
tantivy = "=0.26.2"
clap = { version = "=4.6.7", features = ["derive"] }
walkdir = "=2.5.0"
rayon = "=1.12.0"
gethostname = "=1.1.0"
rustyline = "=18.0.1"
cursive = { version = "=0.21.1", default-features = false, features = ["termion-backend", "ansi"] }
ffmpeg-next = "=9.0.0"
