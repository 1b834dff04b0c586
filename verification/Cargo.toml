[package]
name = "axmem_core"
version = "0.1.0"
edition = "2021"
publish = false

[dependencies]
axallocator = { version = "=0.2.0", default-features = false }
axerrno = "=0.1.2"
hashbrown = { version = "=0.15.5", default-features = false, features = ["default-hasher"] }
memory_addr = "=0.2.1"
