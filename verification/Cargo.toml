[package]
name = "skerry"
version = "0.1.0"
edition = "2021"
publish = false

[dependencies]
ahash = "0.8"
hashbrown = "0.15"
topological-sort = "0.2"
syn = { version = "2", features = ["full", "visit", "visit-mut", "extra-traits"] }
quote = "1"
proc-macro2 = "1"
serde = { version = "1", features = ["derive"] }
postcard = { version = "1", features = ["alloc"] }
walkdir = "2"
paste = "1"
const_panic = "0.2"
