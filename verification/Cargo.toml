[package]
name = "qiniu_ng"
version = "0.1.0"
edition = "2021"
publish = false

[dependencies]
base64 = "*"
hmac = "*"
sha1 = "*"
serde_json = { version = "*", features = ["preserve_order"] }
serde = { version = "*", features = ["derive"] }
url = "*"
mime = "*"
rand = "*"
rayon = "*"
once_cell = "*"
thiserror = "*"
dotenv = "*"
libc = "*"

[dev-dependencies]
crc32fast = "*"
