[package]
name = "termland"
version = "0.7.0"
edition = "2021"
publish = false

[dependencies]
bytes = "1"
ciborium = "0.2"
clap = { version = "4", features = ["derive"] }
clap_complete = "4"
font8x8 = "0.3"
futures = "0.3"
ksni = { version = "0.3", default-features = false, features = ["blocking", "tokio"] }
libc = "0.2"
opus = "0.3"
quinn = { version = "0.11", default-features = false, features = ["runtime-tokio", "rustls-ring"] }
russh = { version = "*", default-features = false, features = ["ring", "flate2"] }
rustls = { version = "0.23", default-features = false, features = ["ring", "std", "tls12"] }
rustls-native-certs = "0.8"
serde = { version = "1", features = ["derive"] }
serde_json = "1"
softbuffer = { version = "0.4", default-features = false, features = ["wayland", "wayland-dlopen"] }
tokio = { version = "1", features = ["rt-multi-thread", "macros", "net", "io-util", "sync", "time", "fs"] }
tokio-rustls = { version = "0.26", default-features = false, features = ["ring", "tls12"] }
tokio-util = { version = "0.7", features = ["codec"] }
tracing = "0.1"
tracing-subscriber = { version = "0.3", features = ["env-filter"] }
wayland-client = "0.31"
wayland-protocols = { version = "0.32", features = ["client", "staging", "unstable"] }
wayland-protocols-misc = { version = "0.3", features = ["client"] }
wayland-protocols-wlr = { version = "0.3", features = ["client"] }
whoami = "1"
winit = { version = "0.30", default-features = false, features = ["rwh_06", "wayland", "wayland-dlopen"] }
