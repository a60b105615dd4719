[package]
name = "brstm_speed_tool"
version = "0.1.0"
edition = "2021"
publish = false

[dependencies]
anyhow = "=1.0.104"
binrw = "=0.11.3"
brstm = "=0.4.2"
