[package]
name = "hardware_simulator"
version = "0.1.0"
edition = "2021"
publish = false
