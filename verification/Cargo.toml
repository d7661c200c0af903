[package]
name = "time_to_topple"
version = "0.1.0"
edition = "2021"
publish = false

[dependencies]
bevy = { version = "0.16", default-features = false, features = ["std", "bevy_color", "bevy_log", "bevy_state"] }
avian2d = { version = "0.3", default-features = false, features = ["2d", "f32", "parry-f32"] }
clap = { version = "4", features = ["derive"] }
dolly = "0.6"
ordered-float = "5"
serde = { version = "1", features = ["derive"] }
