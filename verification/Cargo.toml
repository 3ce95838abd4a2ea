[package]
name = "freeyourdisk"
version = "0.4.5"
edition = "2021"
publish = false

[dependencies]
serde = { version = "1", features = ["derive"] }
serde_json = "1"
dunce = "1"
trash = "5"
jwalk = "0.8"
git2 = { version = "0.19", default-features = false }
sysinfo = "0.33"
libc = "0.2"
getrandom = "0.2"
thiserror = "1"
