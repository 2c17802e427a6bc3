[package]
name = "pi_hal"
version = "0.1.0"
edition = "2021"
publish = false

[dependencies]
pi_slotmap = "*"
pi_hash = "*"
pi_ucd = "*"
unicode-segmentation = "*"
image = "0.24.9"
pi_atom = "*"
pi_share = "*"
pi_assets = "*"
pi_futures = "*"
pi_null = "*"
parking_lot = "*"
lazy_static = "*"
log = "*"
num_cpus = "*"
smallvec = "*"
ordered-float = "*"
parry2d = "*"
bitcode = "*"
ktx = "*"
derive_deref = "*"
serde = { version = "*", features = ["derive"] }
