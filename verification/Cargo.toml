[package]
name = "jxl_reconstruct"
version = "0.1.0"
edition = "2021"
publish = false

[dependencies]
jxl-grid = "=0.1.1"
jxl-vardct = "=0.2.1"
jxl-modular = "=0.2.2"
jxl-frame = "=0.1.0"
jxl-image = "=0.2.0"
jxl-bitstream = "=0.2.3"
jxl-coding = "=0.2.3"
clap = { version = "=4.6.7", features = ["derive"] }
png = "=0.17.16"
rayon = "=1.12.0"
