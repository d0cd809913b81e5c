[package]
name = "pixelgen"
version = "0.1.0"
edition = "2021"
publish = false

[dependencies]
num-complex = "=0.4.6"
rand = "=0.8.8"
image = "=0.24.9"
clap = { version = "=4.6.7", features = ["derive"] }
rustc_apfloat = "0.2"
libm = "0.2"
bytemuck = "1"
