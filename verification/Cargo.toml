[package]
name = "chip8_vm"
version = "0.1.0"
edition = "2021"
publish = false

[dependencies]
fastrand = "2"
log = "0.4"
minifb = "0.25"
pico-args = "0.5"
simple_logger = "4"
