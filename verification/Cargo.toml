[package]
name = "profiler_toolkit"
version = "0.1.0"
edition = "2021"
publish = false

[dependencies]
bytesize = "*"
log = "0.4"
mach = "0.3"
pdb = "0.7"
rusqlite = { version = "*", features = ["bundled"] }
rusqlite_migration = "*"
tokio = { version = "1", features = ["rt", "sync", "fs", "macros"] }
uuid = "0.8"
