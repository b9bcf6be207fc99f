[package]
name = "pinentry-fprint"
version = "0.1.0"
edition = "2021"
publish = false

[dependencies]
zeroize = "1"
tokio = { version = "1", features = ["rt", "rt-multi-thread", "process", "io-util", "time"] }
zbus = "5"
futures-lite = "2"
rpassword = "7"
