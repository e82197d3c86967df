[package]
name = "pcd8544"
version = "0.1.0"
edition = "2021"
publish = false

[dependencies]
spidev = "*"
sysfs_gpio = "*"
