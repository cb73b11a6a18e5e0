[package]
name = "bn254_prepared_syscall"
version = "0.1.0"
edition = "2021"
publish = false

[dependencies]
ark-bn254 = "=0.5.0"
ark-ec = "=0.5.0"
ark-ff = "=0.5.0"
bytemuck = { version = "=1.25.2", features = ["derive", "min_const_generics"] }
bytemuck_derive = "=1.12.1"
thiserror = "=2.0.21"

[dev-dependencies]
ark-std = "=0.5.0"
