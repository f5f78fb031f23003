[package]
name = "eigenplayer"
version = "0.1.0"
edition = "2021"
publish = false

[dependencies]
ringbuf = "0.4"
cpal = "*"
symphonia = "0.5"
tracing = "0.1"
mlua = { version = "*", features = ["lua54", "vendored"] }
rusqlite = { version = "*", features = ["bundled"] }
