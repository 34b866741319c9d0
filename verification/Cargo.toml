[package]
name = "ext-php-rs"
version = "0.1.0"
edition = "2021"
publish = false

[dependencies]
thiserror = "=2.0.21"
indexmap = "2"
smartstring = "1"
