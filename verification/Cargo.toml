[package]
name = "can_usb_bridge"
version = "0.1.0"
edition = "2021"
publish = false

[dependencies]
defmt = "=1.2.0"
defmt-rtt = "=1.3.1"
embassy-executor = { version = "=0.10.0", features = ["executor-thread", "platform-std"] }
embassy-futures = "=0.1.2"
embassy-stm32 = { version = "=0.6.0", features = ["stm32g474re", "dual-bank", "defmt", "unstable-pac"] }
embassy-sync = { version = "=0.8.0", features = ["std", "defmt"] }
embassy-usb = { version = "=0.6.0", features = ["defmt"] }
embedded-can = "=0.4.1"
panic-probe = { version = "=1.0.0", features = ["print-defmt"] }

[dev-dependencies]
binary-layout = "=4.0.2"
