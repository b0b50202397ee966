[package]
name = "ans_csr"
version = "0.1.0"
edition = "2021"
publish = false

[dependencies]
rcgen = { version = "=0.14.10", default-features = false, features = ["crypto", "pem", "aws_lc_rs"] }
secrecy = "=0.10.3"
thiserror = "=2.0.21"

[dev-dependencies]
x509-parser = { version = "=0.18.1", features = ["verify-aws"] }
