[package]
name = "pevm"
version = "0.1.0"
edition = "2021"
publish = false

[dependencies]
alloy-primitives = "1"
alloy-consensus = { version = "1", default-features = false }
rustc-hash = "2"
smallvec = "1"
hashbrown = "0.15"
dashmap = "6"
thiserror = "2"
bitflags = "2"
revm = { version = "*", default-features = false }

[dev-dependencies]
