[package]
name = "port_scanner"
version = "0.1.0"
edition = "2021"
publish = false

[dependencies]
bpaf = { version = "*", features = ["derive"] }
tokio = { version = "*", features = ["rt-multi-thread", "macros", "net"] }
