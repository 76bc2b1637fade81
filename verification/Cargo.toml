[package]
name = "elfo_core"
version = "0.1.0"
edition = "2021"
publish = false

[dependencies]
futures-intrusive = "0.4"
fxhash = "0.2"
linkme = "0.2"
parking_lot = "0.11"
slotmap = "1"
smallbox = "0.8"
smallvec = "1"
tokio = { version = "1", features = ["rt"] }
