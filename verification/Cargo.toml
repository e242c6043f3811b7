[package]
name = "rt_async_amp"
version = "0.1.0"
edition = "2021"
publish = false

[dependencies]
postcard = { version = "=1.1.3", default-features = false }
fdt-parser = "=0.4.19"
libc = "=0.2.191"
log = "=0.4.35"
portable-atomic = "=1.15.0"
