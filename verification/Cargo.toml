[package]
name = "dots_and_boxes"
version = "0.1.0"
edition = "2021"
publish = false
