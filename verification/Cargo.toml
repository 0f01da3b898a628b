[package]
name = "static_alloc"
version = "0.3.0"
edition = "2021"
publish = false

[dependencies]
alloc-traits = "*"
allocator-api2 = "*"
