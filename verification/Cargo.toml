[package]
name = "palit"
version = "0.1.0"
edition = "2021"
publish = false

[dependencies]
daggy = "=0.4.1"
dsp-chain = "=0.13.1"
sample = "=0.11.0"
xmltree = "=0.10.3"
wavefile = "=0.2.0"
termion = "=1.5.6"
libc = "=0.2.191"
alsa = "=0.12.1"
portaudio = "=0.8.0"
linux_raw_input_rs = "=0.1.6"
