[package]
name = "grassfeed"
version = "0.1.0"
edition = "2021"
publish = false

[dependencies]
base64 = "=0.21.7"
lz4-compression = "=0.7.0"
ureq = "=2.12.1"
url = "=2.5.8"
chrono = "=0.4.45"
textcode = "=0.2.2"
tl = "=0.7.8"
feed-rs = "=1.5.3"
regex = "=1.13.1"
ico = "=0.3.0"
png = "=0.17.16"
jpeg-decoder = "=0.3.2"
gif = "=0.13.3"
bmp = "=0.5.0"
usvg = "=0.35.0"
libwebp-image = "=0.3.0"
serde_json = "=1.0.154"
rust-ini = "0.18"
