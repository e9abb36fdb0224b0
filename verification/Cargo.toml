[package]
name = "cmio_vsock"
version = "0.1.0"
edition = "2021"
publish = false

[dependencies]
async-trait = "*"
byteorder = "=1.5.0"
colored = "*"
env_logger = "*"
libc = "*"
log = "*"
nix = { version = "*", features = ["ioctl"] }
thiserror = "*"
tokio = { version = "*", features = ["full"] }
vsock = "*"
