[package]
name = "ave"
version = "0.1.0"
edition = "2021"
publish = false

[dependencies]
cgmath = "=0.16.1"
collision = "=0.14.0"
glium = "0.25"
glutin = "0.21"
noise = "=0.4.1"
rand = "=0.4.6"
