[package]
name = "artsum"
version = "0.1.0"
edition = "2021"
publish = false

[dependencies]
md5 = "=0.7.0"
sha1 = "=0.11.0"
sha2 = "=0.11.1"
blake2 = "=0.11.0"
crc32fast = "=1.5.4"
xxhash-rust = { version = "=0.8.19", features = ["xxh3", "xxh32", "xxh64"] }
hex = "=0.4.3"
regex = "=1.13.1"
tokio = { version = "=1.54.1", features = ["rt-multi-thread", "macros", "sync", "fs", "time", "io-util"] }
clap = { version = "=4.6.7", features = ["derive"] }
clap_complete = "=4.6.11"
clap_mangen = "*"
colored = "=3.1.1"
indicatif = "=0.18.6"
log = "=0.4.35"
simplelog = "=0.12.2"
chrono = "=0.4.45"
anyhow = "=1.0.104"
thiserror = "=2.0.21"
ignore = "=0.4.34"
glob = "=0.3.4"
pathdiff = "=0.2.3"
dirs = "=7.0.0"
