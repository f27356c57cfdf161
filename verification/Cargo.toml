[package]
name = "sudoku_ffi"
version = "0.1.0"
edition = "2021"
publish = false

[dependencies]
sudoku = "=0.8.0"
libc = "=0.2.191"
