[package]
name = "bevy_malek_async"
version = "0.1.0"
edition = "2021"
publish = false

[dependencies]
proc-macro2 = "=1.0.107"
quote = "=1.0.47"
syn = { version = "=2.0.119", features = ["full"] }
async-channel = "=2.5.0"
crossbeam = "=0.8.5"
futures = "=0.3.34"
bevy_app = "=0.19.1"
bevy_ecs = "=0.19.1"
bevy_ecs_macros = "=0.19.1"
bevy_platform = "=0.19.1"
bevy_scene = "=0.19.1"
bevy_tasks = "=0.19.1"
