[package]
name = "mmtk_dummyvm"
version = "0.1.0"
edition = "2021"
publish = false

[dependencies]
mmtk = { version = "=0.26.0", features = ["is_mmtk_object", "object_pinning"] }
atomic = "=0.6.1"
lazy_static = "=1.5.1"
libc = "=0.2.191"
thread-id = "=4.2.2"
