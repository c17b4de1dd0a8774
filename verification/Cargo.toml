[package]
name = "uart_hello"
version = "0.1.0"
edition = "2021"
publish = false

[dependencies]
panic-halt = "*"
