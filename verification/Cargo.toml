[package]
name = "mkrawimg"
version = "0.1.0"
edition = "2021"
publish = false

[dependencies]
anyhow = "1"
blkid = "1"
chrono = "0.4"
clap = { version = "4", features = ["derive"] }
colog = "1"
ctrlc = "3"
errno = "0.3"
flate2 = "1"
gptman = "=3.1.1"
libc = "0.2"
log = "0.4"
loopdev = "0.4"
mbrman = "=0.6.1"
num_cpus = "1"
owo-colors = "4"
rand = "=0.10.3"
reqwest = { version = "0.13", features = ["blocking"] }
serde = { version = "1", features = ["derive"] }
serde_json = "1"
strum = { version = "0.28", features = ["derive"] }
sys-mount = "3"
termsize = "0.1"
toml = "=1.1.8"
uuid = { version = "=1.29.0", features = ["v4", "serde"] }
walkdir = "2"
xz2 = "0.1"
zstd = { version = "0.14", features = ["zstdmt"] }
