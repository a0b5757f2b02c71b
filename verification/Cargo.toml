[package]
name = "cssengine"
version = "0.1.0"
edition = "2021"
publish = false

[dependencies]
csscolorparser = "=0.9.0"
smallvec = { version = "=1.16.4", features = ["const_new"] }
taffy = "=0.15.1"
notify = "*"
