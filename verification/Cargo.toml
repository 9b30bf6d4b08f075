[package]
name = "trails"
version = "0.1.0"
edition = "2021"
publish = false

[dependencies]
anyhow = "1"
eiz = "*"
lazy_static = "1"
rand = "0.8"
structopt = "0.3"
winapi = { version = "0.3", features = ["d3d11", "d3dcommon", "dxgi", "dxgi1_2", "dxgi1_3", "dxgi1_4", "dxgiformat", "dxgitype", "libloaderapi", "minwindef", "synchapi", "winbase", "winnt"] }
winit = "0.25"
