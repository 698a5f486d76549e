[package]
name = "js_plugin"
version = "0.1.0"
edition = "2021"
publish = false

[dependencies]
colored = "=2.2.0"
deno_bindgen = "=0.8.1"
deno_core = "=0.413.0"
deno_error = "=0.7.1"
libc = "=0.2.191"
once_cell = "=1.21.4"
tokio = { version = "=1.54.1", features = ["rt", "time"] }
