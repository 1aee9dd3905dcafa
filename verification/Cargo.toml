[package]
name = "mono_uart_recovery"
version = "0.1.0"
edition = "2021"
publish = false

[dependencies]
serial2 = "0.2"
