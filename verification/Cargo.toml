[package]
name = "virsh-usb"
version = "0.1.0"
edition = "2021"
publish = false

[dependencies]
anyhow = "1"
clap = { version = "4", features = ["derive"] }
console = "0.15"
directories = "5"
inquire = "0.7"
libc = "0.2"
serde = { version = "1", features = ["derive"] }
serde_json = "1"
