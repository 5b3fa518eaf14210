[package]
name = "qmpp"
version = "0.1.0"
edition = "2021"
publish = false

[dependencies]
anyhow = "=1.0.104"
cstr_core = "=0.2.6"
quake-util = "=0.4.0"
wasmtime = "=47.0.4"
