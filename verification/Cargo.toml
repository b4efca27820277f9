[package]
name = "aoc2019"
version = "0.1.0"
edition = "2021"

[dependencies]
itertools = "*"
