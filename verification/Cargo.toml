[package]
name = "riot_rs_core"
version = "0.1.0"
edition = "2021"
publish = false

[dependencies]
riot-rs-runqueue = "=0.1.2"
critical-section = "=1.2.0"
cortex-m = "=0.7.10"
cortex-m-semihosting = "=0.5.0"

[dev-dependencies]
critical-section = { version = "=1.2.0", features = ["std"] }
