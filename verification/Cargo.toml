[package]
name = "chess-engine"
version = "0.1.0"
edition = "2021"
publish = false

[dependencies]
shakmaty = "=0.30.0"
vampirc-uci = "=0.11.1"
chrono = "=0.4.45"
crossterm = "=0.29.0"
owo-colors = "=4.4.0"
