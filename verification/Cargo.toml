[package]
name = "hexdungeon"
version = "0.1.0"
edition = "2021"
publish = false

[dependencies]
hex2d = "=0.3.0"
hex2d-dpcext = "=0.0.9"
rand = "=0.10.3"
fnv = "=1.0.7"
ncurses = "=6.0.1"
libc = "=0.2.191"
fern = "=0.7.1"
log = "=0.4.34"
time = "=0.3.55"
