[package]
name = "melblkidx"
version = "0.1.0"
edition = "2021"
publish = false

[dependencies]
anyhow = "=1.0.104"
concurrent-queue = "=1.2.4"
genawaiter = "0.99"
hex = "=0.4.3"
itertools = "=0.10.5"
log = "=0.4.34"
melstructs = "=0.3.3"
parking_lot = "=0.12.5"
rusqlite = { version = "=0.28.0", features = ["bundled"] }
serde_json = "=1.0.154"
smol = "=1.3.0"
smolscale = "=0.3.54"
stdcode = "=0.1.14"
tap = "=1.0.1"
tmelcrypt = "=0.2.7"
