[package]
name = "lumen"
version = "0.1.0"
edition = "2021"
publish = false

[dependencies]
boa_engine = "=0.21.1"
cookie = "=0.18.2"
cssparser = "=0.37.0"
dirs = "=6.0.0"
futures-concurrency = "=7.7.1"
futures-lite = "=2.6.1"
lightningcss = { version = "=1.0.0-alpha.72", default-features = false, features = ["into_owned"] }
parcel_selectors = { version = "=0.28.3", features = ["into_owned"] }
static-self = { version = "=0.1.2", features = ["smallvec"] }
