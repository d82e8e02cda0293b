[package]
name = "vt_vm_dyn"
version = "0.1.0"
edition = "2021"
publish = false

[dependencies]
caches = "=0.2.8"
inkwell = { version = "=0.2.0", features = ["llvm14-0"] }
llvm-sys = { version = "=140.1.3", features = ["prefer-dynamic"] }
log = "=0.4.34"
