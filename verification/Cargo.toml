[package]
name = "lodviz_core"
version = "0.1.0"
edition = "2021"
publish = false

[dependencies]
rustc_apfloat = "=0.2.3"
const_soft_float = "=0.1.4"
astro-float = { version = "=0.9.6", default-features = false, features = ["std"] }
serde = { version = "=1.0.229", features = ["derive"] }
