[package]
name = "totp_multiplatform_module"
version = "0.1.0"
edition = "2021"
publish = false

[dependencies]
hmac = "*"
sha1 = "*"
jni = "*"

[dev-dependencies]
totp-rs = "*"
